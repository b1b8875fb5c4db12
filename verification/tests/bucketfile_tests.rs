use buckets::bucketfile::{
    bucket_dependencies, bucketfile_to_build, default_bucketfile_path, parse_bucketfile, BucketfileDirective,
    BucketfileError, BuildError,
};

#[test]
fn parses_each_directive() {
    let text = "# comment\nFROM node@20, python@3.11\nenv A=1\nENV B 2\nCOPY src /app\nRUN npm ci\n\nWORKDIR /app\nCMD node index.js\n";
    let ds = parse_bucketfile(text).unwrap();
    assert_eq!(ds.len(), 7);
    match &ds[0] {
        BucketfileDirective::From(specs) => assert_eq!(specs, &vec!["node@20".to_string(), "python@3.11".to_string()]),
        other => panic!("unexpected {other:?}"),
    }
    match &ds[1] {
        BucketfileDirective::Env(k, v) => assert_eq!((k.as_str(), v.as_str()), ("A", "1")),
        other => panic!("unexpected {other:?}"),
    }
    match &ds[2] {
        BucketfileDirective::Env(k, v) => assert_eq!((k.as_str(), v.as_str()), ("B", "2")),
        other => panic!("unexpected {other:?}"),
    }
    match &ds[6] {
        BucketfileDirective::Entrypoint(c) => assert_eq!(c, "node index.js"),
        other => panic!("unexpected {other:?}"),
    }
    assert_eq!(bucket_dependencies(&ds), vec!["node@20", "python@3.11"]);
}

#[test]
fn reports_the_first_bad_line() {
    match parse_bucketfile("FROM x\nCOPY onlyone\nBOGUS\n") {
        Err(BucketfileError::InvalidCopy { line, .. }) => assert_eq!(line, 2),
        other => panic!("unexpected {other:?}"),
    }
    match parse_bucketfile("FROM x\nBOGUS y\n") {
        Err(BucketfileError::UnknownDirective { line, directive }) => {
            assert_eq!(line, 2);
            assert_eq!(directive, "BOGUS");
        }
        other => panic!("unexpected {other:?}"),
    }
    assert!(matches!(parse_bucketfile("RUN\n"), Err(BucketfileError::EmptyRun { line: 1 })));
    assert!(matches!(parse_bucketfile("WORKDIR  \n"), Err(BucketfileError::EmptyWorkdir { line: 1 })));
    assert!(matches!(parse_bucketfile("ENTRYPOINT\n"), Err(BucketfileError::EmptyEntrypoint { line: 1 })));
    assert!(matches!(parse_bucketfile("ENV novalue\n"), Err(BucketfileError::InvalidEnv { line: 1, .. })));
}

#[test]
fn build_error_message() {
    assert_eq!(BuildError::NoEntrypoint.message(), "Bucketfile has no ENTRYPOINT or CMD defined");
}

#[test]
fn which_bucketfile_build_builds() {
    let default = default_bucketfile_path("/src/app");
    assert_eq!(default, "/src/app/Bucketfile");
    assert_eq!(bucketfile_to_build(None, &default, false, Some("t")).unwrap(), None);
    assert_eq!(
        bucketfile_to_build(None, &default, true, Some("my-bucket")).unwrap(),
        Some(("/src/app/Bucketfile".to_string(), "my-bucket".to_string()))
    );
    assert_eq!(
        bucketfile_to_build(Some("other/Bucketfile"), &default, false, Some("x")).unwrap(),
        Some(("other/Bucketfile".to_string(), "x".to_string()))
    );
    assert_eq!(
        bucketfile_to_build(Some("other/Bucketfile"), &default, false, None).unwrap_err(),
        "Please specify a name/tag for the built bucket using --tag or -t (e.g. -t my-bucket)"
    );
    assert!(bucketfile_to_build(None, &default, true, None).is_err());
}
