//! The file in which the daemon leaves the port that it listens on.

use vstd::prelude::*;
use vstd::utf8::{encode_utf8, valid_utf8};
use crate::decimal::{
    ascii, decimal, decimal_has_no_leading_zeros, decimal_is_read_back,
    decimal_stands_for_its_number, decimal_text, digits_value, parse_u16, parsed_u16, NumberError,
};
use crate::logging::around;

verus! {

/// Why there is no place for a port file.
#[derive(Debug, Clone, Copy, PartialEq, Eq, Structural)]
pub enum PathError {
    /// The directory for such files is not known.
    NoRuntimeDir,
    /// The path does not name a file.
    NotAFile,
}

impl PathError {
    /// The text for the log, when `path` was given.
    pub fn message(&self, path: &str) -> (text: String)
        ensures
            text@ == (match self {
                PathError::NoRuntimeDir =>
                    "XDG_RUNTIME_DIR environment variable is expected to be set!"@,
                PathError::NotAFile => "Path to file was expected instead of \""@ + path@ + "\""@,
            }),
    {
        match self {
            PathError::NoRuntimeDir =>
                "XDG_RUNTIME_DIR environment variable is expected to be set!".to_owned(),
            PathError::NotAFile => {
                let mut text: String = "Path to file was expected instead of \"".to_owned();
                text.append(path);
                text.append("\"");
                text
            },
        }
    }
}

/// The directory for the port file, if the environment has `named` one.
pub fn runtime_dir<P>(named: Option<P>) -> (res: Result<P, PathError>)
    ensures
        res == (match named {
            Some(dir) => Ok(dir),
            None => Err(PathError::NoRuntimeDir),
        }),
{
    match named {
        None => Err(PathError::NoRuntimeDir),
        Some(dir) => Ok(dir),
    }
}

/// The name that the port file has by default, in the directory for such
/// files.
pub fn port_file_name() -> (name: String)
    ensures
        name@ == "wsl-proxy.port"@,
{
    "wsl-proxy.port".to_owned()
}

/// A component of a path, where `N` is what the system has for names.
#[derive(Debug)]
pub enum PathPart<N> {
    /// A drive or a share, on systems that have them.
    Prefix(N),
    /// The root of the file system.
    RootDir,
    /// The current directory, at the start of a path.
    CurDir,
    /// The directory above.
    ParentDir,
    /// A file or a directory, by its name.
    Normal(N),
}

/// Whether the path with these components names a file by its name.
pub open spec fn names_file<N>(parts: Seq<PathPart<N>>) -> bool {
    parts.len() > 0 && parts.last() is Normal
}

/// Takes the path of a port file apart: the directory, which is to be
/// canonicalized, and the name of the file, which then goes below it.
pub fn canonicalize_port_file<N>(port_file_path: Vec<PathPart<N>>) -> (res: Result<
    (Vec<PathPart<N>>, N),
    PathError,
>)
    ensures
        match res {
            Ok((dir, name)) => port_file_path@ == dir@.push(PathPart::Normal(name)),
            Err(error) => !names_file(port_file_path@) && error == PathError::NotAFile,
        },
{
    let mut dir = port_file_path;
    match dir.pop() {
        Some(PathPart::Normal(name)) => Ok((dir, name)),
        _ => Err(PathError::NotAFile),
    }
}

/// The path of the file `name` in the directory `dir`.
pub fn file_below<N>(dir: Vec<PathPart<N>>, name: N) -> (path: Vec<PathPart<N>>)
    ensures
        path@ == dir@.push(PathPart::Normal(name)),
{
    let mut path = dir;
    path.push(PathPart::Normal(name));
    path
}

/// Why the port file does not give a port.
#[derive(Debug, Clone, Copy, PartialEq, Eq, Structural)]
pub enum PortFileError {
    /// There is nothing in it.
    Empty,
    /// Its first line is not text.
    NotText,
    /// Its first line is not a port.
    NotAPort(NumberError),
}

impl PortFileError {
    /// The text for the log.
    pub open spec fn text(self) -> Seq<char> {
        match self {
            PortFileError::Empty => "Port file seems to be somehow empty"@,
            PortFileError::NotText => "stream did not contain valid UTF-8"@,
            PortFileError::NotAPort(NumberError::Empty) =>
                "cannot parse integer from empty string"@,
            PortFileError::NotAPort(NumberError::InvalidDigit) => "invalid digit found in string"@,
            PortFileError::NotAPort(NumberError::PosOverflow) =>
                "number too large to fit in target type"@,
        }
    }

    /// The text for the log.
    pub fn message(&self) -> (text: String)
        ensures
            text@ == self.text(),
    {
        match self {
            PortFileError::Empty => "Port file seems to be somehow empty".to_owned(),
            PortFileError::NotText => "stream did not contain valid UTF-8".to_owned(),
            PortFileError::NotAPort(NumberError::Empty) =>
                "cannot parse integer from empty string".to_owned(),
            PortFileError::NotAPort(NumberError::InvalidDigit) =>
                "invalid digit found in string".to_owned(),
            PortFileError::NotAPort(NumberError::PosOverflow) =>
                "number too large to fit in target type".to_owned(),
        }
    }
}

/// How many bytes come before the first line feed.
pub open spec fn before_line_feed(content: Seq<u8>) -> int
    decreases content.len(),
{
    if content.len() == 0 || content.first() == 10 {
        0
    } else {
        1 + before_line_feed(content.drop_first())
    }
}

/// The first line, without the line feed that ends it and without a carriage
/// return before that.
pub open spec fn first_line(content: Seq<u8>) -> Seq<u8> {
    let length = before_line_feed(content);
    if 0 < length < content.len() && content[length - 1] == 13 {
        content.take(length - 1)
    } else {
        content.take(length)
    }
}

/// The port in a port file.
pub open spec fn port_in(content: Seq<u8>) -> Result<u16, PortFileError> {
    if content.len() == 0 {
        Err(PortFileError::Empty)
    } else if !valid_utf8(first_line(content)) {
        Err(PortFileError::NotText)
    } else {
        match parsed_u16(first_line(content)) {
            Ok(port) => Ok(port),
            Err(error) => Err(PortFileError::NotAPort(error)),
        }
    }
}

/// `std::str::from_utf8`: whether the bytes are text in UTF-8.
#[verifier::external_body]
fn is_utf8(bytes: &[u8]) -> (valid: bool)
    ensures
        valid == valid_utf8(bytes@),
{
    std::str::from_utf8(bytes).is_ok()
}

/// The bytes before the first line feed are counted.
proof fn no_line_feed_before(content: Seq<u8>, length: int)
    requires
        0 <= length <= content.len(),
        forall|i: int| 0 <= i < length ==> #[trigger] content[i] != 10,
        length < content.len() ==> content[length] == 10,
    ensures
        before_line_feed(content) == length,
    decreases length,
{
    if length > 0 {
        no_line_feed_before(content.drop_first(), length - 1);
    }
}

/// The port in a port file that holds `content`: a number on the first line.
pub fn read_port_file(content: &[u8]) -> (res: Result<u16, PortFileError>)
    ensures
        res == port_in(content@),
{
    if content.len() == 0 {
        return Err(PortFileError::Empty);
    }
    let mut length: usize = 0;
    while length < content.len() && content[length] != 10
        invariant
            length <= content.len(),
            forall|i: int| 0 <= i < length ==> #[trigger] content@[i] != 10,
        decreases content.len() - length,
    {
        length = length + 1;
    }
    proof {
        no_line_feed_before(content@, length as int);
    }
    let end: usize = if 0 < length && length < content.len() && content[length - 1] == 13 {
        length - 1
    } else {
        length
    };
    let line = vstd::slice::slice_subrange(content, 0, end);
    if !is_utf8(line) {
        return Err(PortFileError::NotText);
    }
    match parse_u16(line) {
        Ok(port) => Ok(port),
        Err(error) => Err(PortFileError::NotAPort(error)),
    }
}

/// What the daemon writes into the port file: the port, and a line feed.
pub open spec fn port_line(port: u16) -> Seq<u8> {
    ascii(decimal(port as int)).push(10)
}

/// The bytes that leave `port` in the port file.
pub fn write_port(port: u16) -> (bytes: Vec<u8>)
    ensures
        bytes@ == port_line(port),
{
    let text = decimal_text(port as u32);
    proof {
        decimal_stands_for_its_number(port as int);
        vstd::utf8::is_ascii_chars_encode_utf8(text@);
    }
    let mut bytes = text.as_str().as_bytes_vec();
    bytes.push(10);
    bytes
}

/// What a file holds that held `before`, after `written` was written from its
/// start on.
pub open spec fn overwritten(before: Seq<u8>, written: Seq<u8>) -> Seq<u8> {
    if before.len() <= written.len() {
        written
    } else {
        written + before.skip(written.len() as int)
    }
}

/// Whoever reads the port file gets the port that the daemon wrote, whatever
/// an earlier daemon has left in the file.
pub proof fn port_is_read_back(before: Seq<u8>, port: u16)
    ensures
        port_in(overwritten(before, port_line(port))) == Ok::<u16, PortFileError>(port),
{
    let digits = ascii(decimal(port as int));
    let content = overwritten(before, port_line(port));
    decimal_stands_for_its_number(port as int);
    decimal_is_read_back(port);
    no_line_feed_before(content, digits.len() as int);
    assert(first_line(content) =~= digits);
    vstd::utf8::encode_utf8_valid_utf8(decimal(port as int));
    vstd::utf8::is_ascii_chars_encode_utf8(decimal(port as int));
    assert(encode_utf8(decimal(port as int)) =~= digits);
}

/// To take a path apart undoes to put it together: a path of whatever length
/// that ends in a name gives the directory before the name, and the name.
pub proof fn file_below_a_directory_is_found<N>(
    dir: Vec<PathPart<N>>,
    name: N,
    path: Vec<PathPart<N>>,
    res: Result<(Vec<PathPart<N>>, N), PathError>,
)
    requires
        call_ensures(file_below::<N>, (dir, name), path),
        call_ensures(canonicalize_port_file::<N>, (path,), res),
    ensures
        res matches Ok((found_dir, found_name)) && found_dir@ == dir@ && found_name == name,
        path@.len() == dir@.len() + 1,
        dir@ == path@.drop_last(),
{
    assert(path@.last() == PathPart::Normal(name));
    if let Ok((found_dir, _)) = res {
        assert(found_dir@ =~= path@.drop_last());
    }
}

/// To put a path together undoes to take it apart, and only a path that does
/// not end in a name cannot be taken apart.
pub proof fn path_is_taken_apart_at_its_name<N>(
    path: Vec<PathPart<N>>,
    res: Result<(Vec<PathPart<N>>, N), PathError>,
    again: Vec<PathPart<N>>,
)
    requires
        call_ensures(canonicalize_port_file::<N>, (path,), res),
        res matches Ok((dir, name)) ==> call_ensures(file_below::<N>, (dir, name), again),
    ensures
        res is Ok <==> path@.len() > 0 && path@[path@.len() - 1] is Normal,
        res is Ok ==> again@ == path@,
        res is Err ==> res->Err_0 is NotAFile,
{
}

/// The directory that the environment names is taken as it is.
pub proof fn runtime_dir_is_the_one_named<P>(named: Option<P>, res: Result<P, PathError>)
    requires
        call_ensures(runtime_dir::<P>, (named,), res),
    ensures
        named matches Some(dir) ==> res == Ok::<P, PathError>(dir),
        named is None ==> res is Err && res->Err_0 is NoRuntimeDir,
{
}

/// Only the first line counts: what is read from a file is what its first line
/// is read as, whether nothing ends the line, or a line feed, or a carriage
/// return and a line feed, and whatever comes after that. A line that is not
/// text, and a file without any line, are errors of their own.
pub proof fn only_the_first_line_counts(
    content: &[u8],
    res: Result<u16, PortFileError>,
    line: &[u8],
    number: Result<u16, NumberError>,
    rest: Seq<u8>,
)
    requires
        call_ensures(read_port_file, (content,), res),
        call_ensures(parse_u16, (line,), number),
        forall|i: int| 0 <= i < line@.len() ==> #[trigger] line@[i] != 10,
        ({
            ||| content@ == line@ && line@.len() > 0
            ||| content@ == line@ + seq![10u8] + rest && (line@.len() > 0
                ==> line@[line@.len() - 1] != 13)
            ||| content@ == line@ + seq![13u8, 10u8] + rest
        }),
    ensures
        !valid_utf8(line@) ==> res == Err::<u16, _>(PortFileError::NotText),
        valid_utf8(line@) ==> match number {
            Ok(port) => res == Ok::<u16, PortFileError>(port),
            Err(error) => res == Err::<u16, _>(PortFileError::NotAPort(error)),
        },
{
    let count = line@.len() as int;
    if content@ == line@ {
        no_line_feed_before(content@, count);
    } else if content@ == line@ + seq![10u8] + rest && (count > 0 ==> line@[count - 1] != 13) {
        no_line_feed_before(content@, count);
    } else {
        no_line_feed_before(content@, count + 1);
    }
    assert(first_line(content@) =~= line@);
}

/// From an empty file no port is read, and from no other file does that error
/// come.
pub proof fn empty_file_has_no_port(content: &[u8], res: Result<u16, PortFileError>)
    requires
        call_ensures(read_port_file, (content,), res),
    ensures
        content@.len() == 0 <==> res == Err::<u16, _>(PortFileError::Empty),
{
}

/// The daemon writes its port in the usual way, and then one line feed; and
/// whoever reads a file that starts with that gets the port.
pub proof fn what_the_daemon_writes_is_read(
    port: u16,
    written: Vec<u8>,
    content: &[u8],
    res: Result<u16, PortFileError>,
)
    requires
        call_ensures(write_port, (port,), written),
        call_ensures(read_port_file, (content,), res),
        written@.is_prefix_of(content@),
    ensures
        written@.len() > 0 && written@[written@.len() - 1] == 10,
        forall|i: int| 0 <= i < written@.len() - 1 ==> 48 <= #[trigger] written@[i] <= 57,
        written@[0] == 48 ==> written@.len() == 2,
        digits_value(written@.drop_last()) == port,
        res == Ok::<u16, PortFileError>(port),
{
    let before = content@;
    decimal_stands_for_its_number(port as int);
    decimal_has_no_leading_zeros(port as int);
    assert(written@.drop_last() =~= ascii(decimal(port as int)));
    assert(overwritten(before, written@) =~= content@) by {
        assert(content@ =~= written@ + content@.skip(written@.len() as int));
    }
    port_is_read_back(before, port);
}

/// The text of a refused path is the same for all paths, but for the path
/// itself; that of a missing directory has nothing to do with any path.
pub proof fn refused_path_is_told(
    path: &str,
    text: String,
    no_dir: String,
    other: &str,
    other_text: String,
    other_no_dir: String,
)
    requires
        call_ensures(PathError::message, (&PathError::NoRuntimeDir, path), no_dir),
        call_ensures(PathError::message, (&PathError::NoRuntimeDir, other), other_no_dir),
        call_ensures(PathError::message, (&PathError::NotAFile, path), text),
        call_ensures(PathError::message, (&PathError::NotAFile, other), other_text),
    ensures
        exists|before: Seq<char>, after: Seq<char>|
            text@ == #[trigger] around(before, path@, after) && other_text@ == around(
                before,
                other@,
                after,
            ),
        no_dir@ == other_no_dir@,
{
    let before = "Path to file was expected instead of \""@;
    let after = "\""@;
    assert(text@ == around(before, path@, after));
}

} // verus!
