use wsl_proxy::decimal::{decimal_text, parse_u16, signed_decimal_text, NumberError};
use wsl_proxy::port_file::{
    canonicalize_port_file, file_below, port_file_name, read_port_file, runtime_dir, write_port,
    PathError, PathPart, PortFileError,
};

#[test]
fn numbers_are_written_without_leading_zeros() {
    for number in [0, 7, 10, 99, 100, 65535, 65536, 1234567890, u32::MAX] {
        assert_eq!(decimal_text(number), number.to_string());
    }
}

#[test]
fn negative_numbers_have_a_minus_sign() {
    for number in [0, 1, -1, 10, -10, i32::MAX, i32::MIN] {
        assert_eq!(signed_decimal_text(number), number.to_string());
    }
}

#[test]
fn every_port_is_read_back() {
    for port in 0..=u16::MAX {
        assert_eq!(read_port_file(&write_port(port)), Ok(port));
    }
}

#[test]
fn port_line_is_decimal_and_line_feed() {
    assert_eq!(write_port(40123), b"40123\n");
}

#[test]
fn leftovers_do_not_matter() {
    let mut content = b"54321\nmore\xff".to_vec();
    let line = write_port(80);
    content[..line.len()].copy_from_slice(&line);
    assert_eq!(content, b"80\n21\nmore\xff");
    assert_eq!(read_port_file(&content), Ok(80));
}

#[test]
fn line_ends_are_cut_off() {
    assert_eq!(read_port_file(b"8080"), Ok(8080));
    assert_eq!(read_port_file(b"8080\r\n"), Ok(8080));
    assert_eq!(
        read_port_file(b"8080\r"),
        Err(PortFileError::NotAPort(NumberError::InvalidDigit))
    );
    assert_eq!(
        read_port_file(b"8080\r\r\n"),
        Err(PortFileError::NotAPort(NumberError::InvalidDigit))
    );
}

#[test]
fn empty_file_has_no_port() {
    assert_eq!(read_port_file(b""), Err(PortFileError::Empty));
}

#[test]
fn empty_line_has_no_port() {
    assert_eq!(read_port_file(b"\n80\n"), Err(PortFileError::NotAPort(NumberError::Empty)));
    assert_eq!(read_port_file(b"\r\n80\n"), Err(PortFileError::NotAPort(NumberError::Empty)));
}

#[test]
fn line_that_is_no_text_has_no_port() {
    assert_eq!(read_port_file(b"80\xff\n"), Err(PortFileError::NotText));
    assert_eq!(
        read_port_file("80\u{e9}\n".as_bytes()),
        Err(PortFileError::NotAPort(NumberError::InvalidDigit))
    );
}

#[test]
fn numbers_are_read_as_the_standard_library_reads_them() {
    let texts = [
        "", "+", "-", "0", "+0", "-0", "+5", "++5", "5+", " 5", "5 ", "00000000000012", "65535",
        "65536", "+65535", "+65536", "99999999999999999999", "6553x", "65536x", "x65536",
        "655350x", "12a", "a", "1 2",
    ];
    for text in texts {
        let expected = text.parse::<u16>().map_err(|error| match error.kind() {
            std::num::IntErrorKind::Empty => NumberError::Empty,
            std::num::IntErrorKind::InvalidDigit => NumberError::InvalidDigit,
            std::num::IntErrorKind::PosOverflow => NumberError::PosOverflow,
            other => panic!("{:?}", other),
        });
        assert_eq!(parse_u16(text.as_bytes()), expected, "{:?}", text);
    }
}

#[test]
fn port_file_errors_have_texts() {
    assert_eq!(PortFileError::Empty.message(), "Port file seems to be somehow empty");
    assert_eq!(PortFileError::NotText.message(), "stream did not contain valid UTF-8");
    for text in ["", "x", "65536"] {
        let error = text.parse::<u16>().unwrap_err();
        let own = PortFileError::NotAPort(parse_u16(text.as_bytes()).unwrap_err());
        assert_eq!(own.message(), error.to_string());
    }
}

#[test]
fn directory_has_to_be_known() {
    assert_eq!(runtime_dir(Some("/run/user/1000")), Ok("/run/user/1000"));
    assert_eq!(runtime_dir::<u8>(None), Err(PathError::NoRuntimeDir));
    assert_eq!(
        PathError::NoRuntimeDir.message(""),
        "XDG_RUNTIME_DIR environment variable is expected to be set!"
    );
}

#[test]
fn port_file_has_a_default_name() {
    let dir = vec![PathPart::RootDir, PathPart::Normal("run".to_string())];
    let path = file_below(dir, port_file_name());
    assert_eq!(path.len(), 3);
    assert!(matches!(&path[0], PathPart::RootDir));
    assert!(matches!(&path[1], PathPart::Normal(name) if name == "run"));
    assert!(matches!(&path[2], PathPart::Normal(name) if name == "wsl-proxy.port"));
}

#[test]
fn port_file_is_moved_below_its_directory() {
    let path = vec![PathPart::RootDir, PathPart::Normal("link"), PathPart::Normal("my.port")];
    let (dir, name) = canonicalize_port_file(path).unwrap();
    assert_eq!(dir.len(), 2);
    assert!(matches!(dir[1], PathPart::Normal("link")));
    let path = file_below(vec![PathPart::RootDir, PathPart::Normal("real")], name);
    assert_eq!(path.len(), 3);
    assert!(matches!(path[1], PathPart::Normal("real")));
    assert!(matches!(path[2], PathPart::Normal("my.port")));
}

#[test]
fn port_file_without_a_directory() {
    let (dir, name) = canonicalize_port_file(vec![PathPart::Normal("my.port")]).unwrap();
    assert!(dir.is_empty());
    assert_eq!(name, "my.port");
}

#[test]
fn path_that_names_no_file_is_refused() {
    let paths: Vec<Vec<PathPart<&str>>> = vec![
        vec![],
        vec![PathPart::RootDir],
        vec![PathPart::CurDir],
        vec![PathPart::Prefix("C:")],
        vec![PathPart::RootDir, PathPart::Normal("tmp"), PathPart::ParentDir],
    ];
    for path in paths {
        assert_eq!(canonicalize_port_file(path).unwrap_err(), PathError::NotAFile);
    }
    assert_eq!(
        PathError::NotAFile.message("\"/\""),
        "Path to file was expected instead of \"\"/\"\""
    );
}
