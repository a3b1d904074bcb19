use rustyrender::parser::error::ParserError;
use rustyrender::parser::json::JSONSceneLoader;
use rustyrender::parser::FileReaderFactory;
use rustyrender::renderer::ComputeEnv;
use rustyrender::Args;

#[test]
fn json_loader_keeps_its_file_name() {
    let loader = JSONSceneLoader::new("test_input/one_sphere.json");
    assert_eq!(loader.filename(), "test_input/one_sphere.json");
}

#[test]
fn json_files_get_the_json_loader() {
    let loader = FileReaderFactory::get_file_processor("scene.json").ok().unwrap();
    assert_eq!(loader.filename(), "scene.json");
    let loader = FileReaderFactory::get_file_processor("scenes/a.b/world.json").ok().unwrap();
    assert_eq!(loader.filename(), "scenes/a.b/world.json");
}

#[test]
fn other_extensions_are_refused() {
    for name in ["scene.txt", "scene", "scene.JSON", "scenes.json/world", ".json", "scene.json.bak"] {
        assert!(
            matches!(FileReaderFactory::get_file_processor(name), Err(ParserError::FileExtension)),
            "{}",
            name
        );
    }
}

#[test]
fn loader_for_extension() {
    let json = Some("json".to_string());
    let loader = FileReaderFactory::processor_for_extension("w.json", &json).ok().unwrap();
    assert_eq!(loader.filename(), "w.json");
    assert!(matches!(
        FileReaderFactory::processor_for_extension("w.xml", &Some("xml".to_string())),
        Err(ParserError::FileExtension)
    ));
    assert!(matches!(
        FileReaderFactory::processor_for_extension("w", &None),
        Err(ParserError::FileExtension)
    ));
}

#[test]
fn io_errors_convert() {
    let e: ParserError = std::io::Error::new(std::io::ErrorKind::NotFound, "gone").into();
    assert!(matches!(e, ParserError::IO(_)));
}

fn args(compute: Option<ComputeEnv>, width: isize) -> Args {
    Args {
        arg_source: "in.json".to_string(),
        arg_dest: "out.png".to_string(),
        flag_compute: compute,
        flag_width: width,
        flag_height: 1080,
        flag_samples: 10,
        flag_depth: 50,
    }
}

#[test]
fn settings_default_to_multicore() {
    let s = args(None, 1920).settings();
    assert_eq!(s.env, ComputeEnv::Multicore);
    assert_eq!((s.width, s.height, s.samples, s.depth), (1920, 1080, 10, 50));
    let s = args(Some(ComputeEnv::Naive), 200).settings();
    assert_eq!(s.env, ComputeEnv::Naive);
    assert_eq!(s.width, 200);
}

#[test]
fn negative_dimension_wraps() {
    let s = args(None, -1).settings();
    assert_eq!(s.width, u32::MAX);
}
