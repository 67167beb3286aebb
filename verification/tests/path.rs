use rseip::ab_eip::path::{PathError, PathParser};
use rseip::cip::epath::{EPath, Segment};

#[test]
fn test_valid_tag_paths() {
    let path = EPath::parse_tag("struct_a").unwrap();
    assert_eq!(path, EPath::from_symbol("struct_a"));

    let path = EPath::parse_tag("_under").unwrap();
    assert_eq!(path, EPath::from_symbol("_under"));

    let path = EPath::parse_tag("struct_a.1").unwrap();
    assert_eq!(path, EPath::from_symbol("struct_a").with_element(1));

    let path = EPath::parse_tag("profile[0,1,257]").unwrap();
    assert_eq!(
        path,
        EPath::from_symbol("profile")
            .with_element(0)
            .with_element(1)
            .with_element(257)
    );

    let path = EPath::parse_tag("a.b.c").unwrap();
    assert_eq!(
        path,
        EPath::from_symbol("a").with_symbol("b").with_symbol("c")
    );

    let path = EPath::parse_tag("ProGram:MainProgram.test").unwrap();
    assert_eq!(
        path,
        EPath::from_symbol("ProGram:MainProgram").with_symbol("test")
    );

    let path = EPath::parse_tag("struct_a[1]._abc.efg[2,3]").unwrap();
    assert_eq!(
        path,
        EPath::from_symbol("struct_a")
            .with_element(1)
            .with_symbol("_abc")
            .with_symbol("efg")
            .with_element(2)
            .with_element(3)
    );
}

#[test]
fn test_invalid_tag_paths() {
    let paths = [
        "",
        ".",
        "[",
        "124",
        "123534546456565756",
        "_abc-",
        ".1234",
        "[12345]",
        "abc[1,]",
        "abc[1,3,]",
        "abc[1,3",
        "abc[1,3,",
        "my.heart:on",
    ];

    for item in paths {
        let res = EPath::parse_tag(item);
        assert!(res.is_err());
    }
}

#[test]
fn parse_tag_reports_each_error() {
    assert_eq!(EPath::parse_tag(""), Err(PathError::Empty));
    assert_eq!(EPath::parse_tag("."), Err(PathError::NameParseError));
    assert_eq!(EPath::parse_tag("_abc-"), Err(PathError::UnexpectedByte(b'-')));
    assert_eq!(EPath::parse_tag("abc[1,3"), Err(PathError::Eof));
    assert_eq!(EPath::parse_tag("abc[1,]"), Err(PathError::NumberParseError));
    assert_eq!(EPath::parse_tag("abc[4294967296]"), Err(PathError::NumberParseError));
    assert_eq!(EPath::parse_tag("abc.32"), Err(PathError::SyntaxError));
    assert_eq!(EPath::parse_tag("abc.3x"), Err(PathError::SyntaxError));
    assert_eq!(EPath::parse_tag("abc."), Err(PathError::Eof));
    assert_eq!(
        EPath::parse_tag("a234567890123456789012345678901234567890x"),
        Err(PathError::NameTooLong)
    );
    assert_eq!(EPath::parse_tag("program:"), Err(PathError::NameParseError));
    assert_eq!(EPath::parse_tag("a.program:x"), Err(PathError::UnexpectedByte(b':')));
}

#[test]
fn parse_tag_bit_and_max_index() {
    assert_eq!(
        EPath::parse_tag("abc.31").unwrap(),
        EPath::from_symbol("abc").with_element(31)
    );
    assert_eq!(
        EPath::parse_tag("abc[4294967295]").unwrap(),
        EPath::from_symbol("abc").with_element(4294967295)
    );
    let path = EPath::parse_tag("PROGRAM:x").unwrap();
    assert_eq!(path.into_vec(), vec![Segment::Symbol("PROGRAM:x".to_owned())]);
}
