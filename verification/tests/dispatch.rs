use arrayio::backend::{IoBackend, Renderer, Unsupported};
use arrayio::dispatch::{
    file_text, file_value, print_parts, var_value, Outcome, ReadUse, Request,
};
use arrayio::op::IoOp;
use arrayio::value::{Array, Byte, Num, Value};
use std::cell::RefCell;
use std::collections::BTreeMap;

fn num(x: f64) -> Num {
    Num { bits: x.to_bits(), level: (x * 255.0).floor() as u8, sample: (x as f32).to_bits() }
}

fn numbers(shape: Vec<usize>, xs: &[f64]) -> Value {
    Value::Num(Array::new(shape, xs.iter().map(|x| num(*x)).collect()).unwrap())
}

fn text(s: &str) -> Value {
    Value::from_string(s)
}

/// A host with a console, an environment and files, all in memory.
#[derive(Default)]
struct Host {
    printed: RefCell<Vec<String>>,
    line: String,
    args: Vec<String>,
    vars: BTreeMap<String, String>,
    files: RefCell<BTreeMap<String, Vec<u8>>>,
    dirs: BTreeMap<String, Vec<String>>,
    shown: RefCell<Vec<image::DynamicImage>>,
    played: RefCell<Vec<Vec<u8>>>,
    next: RefCell<f64>,
}

impl IoBackend for Host {
    fn has_display(&self) -> bool {
        true
    }
    fn has_audio(&self) -> bool {
        true
    }
    fn has_input(&self) -> bool {
        true
    }
    fn has_vars(&self) -> bool {
        true
    }
    fn has_args(&self) -> bool {
        true
    }
    fn has_files(&self) -> bool {
        true
    }
    fn print_str(&self, s: &str) {
        self.printed.borrow_mut().push(s.to_string());
    }
    fn rand(&self) -> Num {
        let mut next = self.next.borrow_mut();
        *next = (*next * 7.0 + 0.123) % 1.0;
        num(*next)
    }
    fn show_image(&self, image: image::DynamicImage) -> Result<(), String> {
        self.shown.borrow_mut().push(image);
        Ok(())
    }
    fn play_audio(&self, wav_bytes: Vec<u8>) -> Result<(), String> {
        self.played.borrow_mut().push(wav_bytes);
        Ok(())
    }
    fn scan_line(&self) -> Result<String, String> {
        if self.line == "\u{4}" {
            return Err("end of input".to_string());
        }
        Ok(self.line.clone())
    }
    fn var(&self, name: &str) -> Option<String> {
        self.vars.get(name).cloned()
    }
    fn args(&self) -> Vec<String> {
        self.args.clone()
    }
    fn file_exists(&self, path: &str) -> bool {
        self.files.borrow().contains_key(path) || self.dirs.contains_key(path)
    }
    fn list_dir(&self, path: &str) -> Result<Vec<String>, String> {
        self.dirs.get(path).cloned().ok_or_else(|| format!("no directory {}", path))
    }
    fn is_file(&self, path: &str) -> Result<bool, String> {
        if self.files.borrow().contains_key(path) {
            Ok(true)
        } else if self.dirs.contains_key(path) {
            Ok(false)
        } else {
            Err(format!("nothing at {}", path))
        }
    }
    fn read_file(&self, path: &str) -> Result<Vec<u8>, String> {
        self.files.borrow().get(path).cloned().ok_or_else(|| format!("no file {}", path))
    }
    fn write_file(&self, path: &str, contents: Vec<u8>) -> Result<(), String> {
        if path.is_empty() {
            return Err("no path".to_string());
        }
        self.files.borrow_mut().insert(path.to_string(), contents);
        Ok(())
    }
}

/// A renderer that marks what it has rendered and how.
struct Marks;

impl Renderer for Marks {
    fn grid_string(&self, value: &Value) -> String {
        match value.as_string("") {
            Ok(text) => format!("[grid {}]", text),
            Err(_) => format!("[grid of rank {}]", value.rank()),
        }
    }
    fn display_string(&self, value: &Value) -> String {
        match value.as_string("") {
            Ok(text) => text,
            Err(_) => format!("<rank {}>", value.rank()),
        }
    }
}

/// A host that can only print and draw numbers.
struct Bare;

impl IoBackend for Bare {
    fn print_str(&self, _s: &str) {}
    fn rand(&self) -> Num {
        num(0.5)
    }
}

#[test]
fn show_and_print_end_the_line_and_prin_does_not() {
    let host = Host::default();
    let mut stack = vec![text("below"), text("g")];
    assert_eq!(IoOp::Show.run(&mut stack, &host, &Marks), Ok(Outcome::Done));
    assert_eq!(stack, vec![text("below")]);
    assert_eq!(host.printed.borrow().concat(), "[grid g]\n");
    assert_eq!(*host.printed.borrow(), vec!["[grid g]".to_string(), "\n".to_string()]);

    let host = Host::default();
    let mut stack = vec![text("plain")];
    assert_eq!(IoOp::Print.run(&mut stack, &host, &Marks), Ok(Outcome::Done));
    assert!(stack.is_empty());
    assert_eq!(host.printed.borrow().concat(), "plain\n");

    let host = Host::default();
    let mut stack = vec![text("no end")];
    assert_eq!(IoOp::Prin.run(&mut stack, &host, &Marks), Ok(Outcome::Done));
    assert!(stack.is_empty());
    assert_eq!(host.printed.borrow().concat(), "no end");
    assert_eq!(host.printed.borrow().len(), 1);
}

#[test]
fn any_value_is_rendered_and_printed() {
    let host = Host::default();
    let mut stack = vec![numbers(vec![2, 2], &[1.0, 2.0, 3.0, 4.0])];
    assert_eq!(IoOp::Show.run(&mut stack, &host, &Marks), Ok(Outcome::Done));
    assert!(stack.is_empty());
    let mut stack = vec![Value::from_bool(true)];
    assert_eq!(IoOp::Print.run(&mut stack, &host, &Marks), Ok(Outcome::Done));
    let mut stack = vec![Value::from_bytes(&vec![1])];
    assert_eq!(IoOp::Prin.run(&mut stack, &host, &Marks), Ok(Outcome::Done));
    assert_eq!(host.printed.borrow().concat(), "[grid of rank 2]\n<rank 0>\n<rank 1>");
}

#[test]
fn the_pieces_that_are_printed() {
    assert_eq!(print_parts("a b".to_string(), true), vec!["a b".to_string(), "\n".to_string()]);
    assert_eq!(print_parts("a b".to_string(), false), vec!["a b".to_string()]);
    assert_eq!(print_parts(String::new(), true), vec![String::new(), "\n".to_string()]);
    assert_eq!(print_parts(String::new(), false), vec![String::new()]);
}

#[test]
fn a_variable_that_is_not_set_is_the_empty_string() {
    assert_eq!(var_value(Some("v\u{e9}".to_string())), text("v\u{e9}"));
    assert_eq!(var_value(Some(String::new())), text(""));
    assert_eq!(var_value(None), text(""));
}

#[test]
fn an_operand_that_is_not_there() {
    let host = Host::default();
    for op in IoOp::all() {
        let mut stack: Vec<Value> = Vec::new();
        let r = op.run(&mut stack, &host, &Marks);
        match op {
            IoOp::Scan | IoOp::Args | IoOp::Rand => {
                assert_eq!(r, Ok(Outcome::Done));
                assert_eq!(stack.len(), 1);
            }
            IoOp::Now => {
                assert_eq!(r, Ok(Outcome::Clock));
                assert!(stack.is_empty());
            }
            _ => {
                assert_eq!(
                    r,
                    Err("Stack was empty when evaluating argument 1".to_string()),
                    "{:?}",
                    op
                );
                assert!(stack.is_empty());
            }
        }
    }
    for op in [IoOp::FWriteStr, IoOp::FWriteBytes, IoOp::ImWrite] {
        let mut stack = vec![text("f.png")];
        assert_eq!(
            op.run(&mut stack, &host, &Marks),
            Err("Stack was empty when evaluating argument 2".to_string())
        );
        assert!(stack.is_empty());
    }
    assert!(host.files.borrow().is_empty());
}

#[test]
fn the_console_and_the_environment() {
    let mut host = Host::default();
    host.line = "typed".to_string();
    host.args = vec!["prog".to_string(), "-x".to_string()];
    host.vars.insert("HOME".to_string(), "/home/u".to_string());

    let mut stack = vec![text("below")];
    assert_eq!(IoOp::Scan.run(&mut stack, &host, &Marks), Ok(Outcome::Done));
    assert_eq!(stack, vec![text("below"), text("typed")]);

    let mut stack = Vec::new();
    assert_eq!(IoOp::Args.run(&mut stack, &host, &Marks), Ok(Outcome::Done));
    assert_eq!(stack, vec![Value::from_lines(vec!["prog".to_string(), "-x".to_string()])]);

    let mut closed = Host::default();
    closed.line = "\u{4}".to_string();
    let mut stack = vec![text("below")];
    assert_eq!(IoOp::Scan.run(&mut stack, &closed, &Marks), Err("end of input".to_string()));
    assert_eq!(stack, vec![text("below")]);

    let mut stack = vec![text("HOME")];
    assert_eq!(IoOp::Var.run(&mut stack, &host, &Marks), Ok(Outcome::Done));
    assert_eq!(stack, vec![text("/home/u")]);

    let mut stack = vec![text("NONE")];
    assert_eq!(IoOp::Var.run(&mut stack, &host, &Marks), Ok(Outcome::Done));
    assert_eq!(stack, vec![text("")]);

    let mut stack = vec![Value::from_bool(true)];
    assert_eq!(
        IoOp::Var.run(&mut stack, &host, &Marks),
        Err("Augument to var must be a string".to_string())
    );
    assert!(stack.is_empty());
}

#[test]
fn random_numbers_are_pushed_as_they_come() {
    let host = Host::default();
    let mut stack = Vec::new();
    for _ in 0..20 {
        assert_eq!(IoOp::Rand.run(&mut stack, &host, &Marks), Ok(Outcome::Done));
    }
    assert_eq!(stack.len(), 20);
    let mut seen = Vec::new();
    for v in &stack {
        match v {
            Value::Num(a) => {
                assert_eq!(a.rank(), 0);
                let x = f64::from_bits(a.data()[0].bits);
                assert!((0.0..1.0).contains(&x));
                seen.push(x);
            }
            other => panic!("not a number: {:?}", other),
        }
    }
    assert!(seen.iter().any(|x| *x != seen[0]));
}

#[test]
fn the_time_is_left_to_the_evaluator() {
    let host = Host::default();
    let mut stack = vec![text("below")];
    assert_eq!(IoOp::Now.run(&mut stack, &host, &Marks), Ok(Outcome::Clock));
    assert_eq!(stack, vec![text("below")]);
    assert_eq!(IoOp::Now.prepare(&mut stack), Ok(Request::Clock));
}

#[test]
fn text_written_is_text_read() {
    let host = Host::default();
    let contents = "gr\u{fc}\u{df}e \u{1f600}\nline two\r\n";
    let mut stack = vec![text("below"), text(contents), text("note.txt")];
    assert_eq!(IoOp::FWriteStr.run(&mut stack, &host, &Marks), Ok(Outcome::Done));
    assert_eq!(stack, vec![text("below")]);
    assert_eq!(host.files.borrow().get("note.txt").unwrap(), &contents.as_bytes().to_vec());

    stack.push(text("note.txt"));
    assert_eq!(IoOp::FReadStr.run(&mut stack, &host, &Marks), Ok(Outcome::Done));
    assert_eq!(stack, vec![text("below"), text(contents)]);

    let mut stack = vec![text("note.txt")];
    assert_eq!(IoOp::FLines.run(&mut stack, &host, &Marks), Ok(Outcome::Done));
    assert_eq!(
        stack,
        vec![Value::from_lines(vec!["gr\u{fc}\u{df}e \u{1f600}".to_string(), "line two".to_string()])]
    );

    let mut stack = vec![text(""), text("empty.txt")];
    assert_eq!(IoOp::FWriteStr.run(&mut stack, &host, &Marks), Ok(Outcome::Done));
    let mut stack = vec![text("empty.txt")];
    assert_eq!(IoOp::FReadStr.run(&mut stack, &host, &Marks), Ok(Outcome::Done));
    assert_eq!(stack, vec![text("")]);
}

#[test]
fn bytes_written_are_bytes_read() {
    let host = Host::default();
    let contents: Vec<u8> = (0..=255).collect();
    let mut stack = vec![Value::from_bytes(&contents), text("all.bin")];
    assert_eq!(IoOp::FWriteBytes.run(&mut stack, &host, &Marks), Ok(Outcome::Done));
    assert!(stack.is_empty());
    assert_eq!(host.files.borrow().get("all.bin").unwrap(), &contents);

    stack.push(text("all.bin"));
    assert_eq!(IoOp::FReadBytes.run(&mut stack, &host, &Marks), Ok(Outcome::Done));
    assert_eq!(stack, vec![Value::from_bytes(&contents)]);
    assert_eq!(stack[0].as_bytes("no"), Ok(contents));

    let holes = Value::Byte(Array::list(vec![Byte::Value(7), Byte::Unset]));
    let mut stack = vec![holes, text("holes.bin")];
    assert_eq!(IoOp::FWriteBytes.run(&mut stack, &host, &Marks), Ok(Outcome::Done));
    assert_eq!(host.files.borrow().get("holes.bin").unwrap(), &vec![7u8, 0]);
}

#[test]
fn the_path_lies_above_the_contents() {
    let host = Host::default();
    let mut stack = vec![text("path.txt"), Value::from_bytes(&vec![1])];
    assert_eq!(
        IoOp::FWriteStr.run(&mut stack, &host, &Marks),
        Err("Path must be a string".to_string())
    );
    assert_eq!(stack, vec![text("path.txt")]);

    let mut stack = vec![text("below"), Value::from_bytes(&vec![1]), text("path.txt")];
    assert_eq!(
        IoOp::FWriteStr.run(&mut stack, &host, &Marks),
        Err("Contents must be a string".to_string())
    );
    assert_eq!(stack, vec![text("below")]);

    let mut stack = vec![text("words"), text("path.bin")];
    assert_eq!(
        IoOp::FWriteBytes.run(&mut stack, &host, &Marks),
        Err("Contents must be a byte array".to_string())
    );
    assert!(stack.is_empty());
    assert!(host.files.borrow().is_empty());
}

#[test]
fn an_error_of_the_host_is_the_error() {
    let host = Host::default();
    for op in [IoOp::FReadStr, IoOp::FReadBytes, IoOp::FLines, IoOp::ImRead, IoOp::Import] {
        let mut stack = vec![text("gone")];
        assert_eq!(op.run(&mut stack, &host, &Marks), Err("no file gone".to_string()), "{:?}", op);
        assert!(stack.is_empty());
    }
    let mut stack = vec![text("gone")];
    assert_eq!(IoOp::FListDir.run(&mut stack, &host, &Marks), Err("no directory gone".to_string()));
    let mut stack = vec![text("gone")];
    assert_eq!(IoOp::FIsFile.run(&mut stack, &host, &Marks), Err("nothing at gone".to_string()));
    let mut stack = vec![text("x"), text("")];
    assert_eq!(IoOp::FWriteStr.run(&mut stack, &host, &Marks), Err("no path".to_string()));
    assert!(stack.is_empty());
    for op in [
        IoOp::FReadStr,
        IoOp::FReadBytes,
        IoOp::FLines,
        IoOp::ImRead,
        IoOp::FExists,
        IoOp::FListDir,
        IoOp::FIsFile,
        IoOp::FWriteStr,
        IoOp::FWriteBytes,
        IoOp::ImWrite,
    ] {
        let mut stack = vec![text("x"), Value::from_bool(true)];
        assert_eq!(op.run(&mut stack, &host, &Marks), Err("Path must be a string".to_string()));
        assert_eq!(stack, vec![text("x")]);
    }
}

#[test]
fn bytes_that_are_no_text() {
    let host = Host::default();
    let bad = vec![b'a', 0xff, b'b'];
    let fault = String::from_utf8(bad.clone()).unwrap_err().to_string();
    host.files.borrow_mut().insert("bad.txt".to_string(), bad.clone());
    for op in [IoOp::FReadStr, IoOp::FLines, IoOp::Import] {
        let mut stack = vec![text("bad.txt")];
        assert_eq!(
            op.run(&mut stack, &host, &Marks),
            Err(format!("Failed to read file: {}", fault)),
            "{:?}",
            op
        );
        assert!(stack.is_empty());
    }
    let mut stack = vec![text("bad.txt")];
    assert_eq!(IoOp::FReadBytes.run(&mut stack, &host, &Marks), Ok(Outcome::Done));
    assert_eq!(stack, vec![Value::from_bytes(&bad)]);
    assert_eq!(file_text(bad.clone()), Err(format!("Failed to read file: {}", fault)));
    assert_eq!(file_text(vec![0xe2, 0x82]).unwrap_err().len() > 21, true);
    assert_eq!(file_text("ok \u{20ac}".as_bytes().to_vec()), Ok("ok \u{20ac}".to_string()));
}

#[test]
fn what_a_file_becomes() {
    let bytes = "a\nb\r\n\u{e9}".as_bytes().to_vec();
    assert_eq!(file_value(ReadUse::Text, bytes.clone()), Ok(text("a\nb\r\n\u{e9}")));
    assert_eq!(file_value(ReadUse::Module, bytes.clone()), Ok(text("a\nb\r\n\u{e9}")));
    assert_eq!(file_value(ReadUse::Bytes, bytes.clone()), Ok(Value::from_bytes(&bytes)));
    assert_eq!(
        file_value(ReadUse::Lines, bytes.clone()),
        Ok(Value::from_lines(vec!["a".to_string(), "b".to_string(), "\u{e9}".to_string()]))
    );
    assert!(file_value(ReadUse::Image, bytes).unwrap_err().starts_with("Failed to read image: "));
    assert_eq!(file_value(ReadUse::Lines, Vec::new()), Ok(Value::from_lines(Vec::new())));
    assert_eq!(file_value(ReadUse::Bytes, vec![0xff]), Ok(Value::from_bytes(&vec![0xff])));
    assert!(file_value(ReadUse::Text, vec![0xff]).unwrap_err().starts_with("Failed to read file: "));
}

#[test]
fn existence_and_kind() {
    let mut host = Host::default();
    host.files.borrow_mut().insert("f".to_string(), vec![1]);
    host.dirs.insert("d".to_string(), vec![]);
    for (path, exists) in [("f", true), ("d", true), ("x", false)] {
        let mut stack = vec![text(path)];
        assert_eq!(IoOp::FExists.run(&mut stack, &host, &Marks), Ok(Outcome::Done));
        assert_eq!(stack, vec![Value::from_bool(exists)]);
    }
    let mut stack = vec![text("f")];
    assert_eq!(IoOp::FIsFile.run(&mut stack, &host, &Marks), Ok(Outcome::Done));
    assert_eq!(stack, vec![Value::from_bool(true)]);
    let mut stack = vec![text("d")];
    assert_eq!(IoOp::FIsFile.run(&mut stack, &host, &Marks), Ok(Outcome::Done));
    assert_eq!(stack, vec![Value::from_bool(false)]);
}

#[test]
fn a_directory_of_two_files() {
    let mut host = Host::default();
    host.dirs.insert("dir".to_string(), vec!["dir/b.txt".to_string(), "dir/a.txt".to_string()]);
    let mut stack = vec![text("dir")];
    assert_eq!(IoOp::FListDir.run(&mut stack, &host, &Marks), Ok(Outcome::Done));
    assert_eq!(stack.len(), 1);
    match stack.pop().unwrap() {
        Value::Lines(mut paths) => {
            assert_eq!(paths.len(), 2);
            paths.sort();
            assert_eq!(paths, vec!["dir/a.txt".to_string(), "dir/b.txt".to_string()]);
        }
        other => panic!("not a list: {:?}", other),
    }
}

#[test]
fn import_needs_an_empty_stack() {
    let host = Host::default();
    host.files.borrow_mut().insert("m.ua".to_string(), "f = 1\n".as_bytes().to_vec());
    let mut stack = vec![text("m.ua")];
    assert_eq!(
        IoOp::Import.run(&mut stack, &host, &Marks),
        Ok(Outcome::Import { input: "f = 1\n".to_string(), path: "m.ua".to_string() })
    );
    assert!(stack.is_empty());

    let mut stack = vec![text("one"), text("two"), text("m.ua")];
    assert_eq!(
        IoOp::Import.run(&mut stack, &host, &Marks),
        Err("Stack must be empty before import, but there are 2 items on it".to_string())
    );
    assert_eq!(stack, vec![text("one"), text("two")]);

    let mut stack = vec![text("one"), text("m.ua")];
    assert_eq!(
        IoOp::Import.run(&mut stack, &host, &Marks),
        Err("Stack must be empty before import, but there are 1 items on it".to_string())
    );

    let mut stack = vec![text("one"), Value::from_bool(false)];
    assert_eq!(
        IoOp::Import.run(&mut stack, &host, &Marks),
        Err("Import path must be a string".to_string())
    );
    assert_eq!(stack, vec![text("one")]);
}

#[test]
fn an_image_written_is_an_image_read() {
    let host = Host::default();
    let xs = [0.0, 0.5, 1.0, 0.25, 0.75, 1.0];
    for (path, format) in [
        ("a.png", image::ImageFormat::Png),
        ("a.bmp", image::ImageFormat::Bmp),
        ("a.gif", image::ImageFormat::Gif),
        ("a.jpg", image::ImageFormat::Jpeg),
        ("a.jpeg", image::ImageFormat::Jpeg),
        ("a.ico", image::ImageFormat::Ico),
        ("a.other", image::ImageFormat::Png),
        ("a", image::ImageFormat::Png),
    ] {
        let mut stack = vec![text("below"), numbers(vec![2, 3], &xs), text(path)];
        assert_eq!(IoOp::ImWrite.run(&mut stack, &host, &Marks), Ok(Outcome::Done), "{}", path);
        assert_eq!(stack, vec![text("below")]);
        let file = host.files.borrow().get(path).unwrap().clone();
        assert_eq!(image::guess_format(&file).unwrap(), format, "{}", path);
    }
    let mut stack = vec![text("a.png")];
    assert_eq!(IoOp::ImRead.run(&mut stack, &host, &Marks), Ok(Outcome::Done));
    let levels = [0u8, 127, 255, 63, 191, 255];
    let expected: Vec<Byte> = levels
        .iter()
        .flat_map(|l| [Byte::Value(*l), Byte::Value(*l), Byte::Value(*l), Byte::Value(255)])
        .collect();
    assert_eq!(stack, vec![Value::Byte(Array::new(vec![2, 3, 4], expected).unwrap())]);

    let mut stack = vec![numbers(vec![3], &[0.0; 3]), text("b.png")];
    assert_eq!(
        IoOp::ImWrite.run(&mut stack, &host, &Marks),
        Err("Image must be a rank 2 or 3 numeric array, but it is rank 1".to_string())
    );
    assert!(stack.is_empty());
    assert!(!host.files.borrow().contains_key("b.png"));

    host.files.borrow_mut().insert("no.png".to_string(), vec![1, 2, 3]);
    let mut stack = vec![text("no.png")];
    let e = IoOp::ImRead.run(&mut stack, &host, &Marks).unwrap_err();
    assert!(e.starts_with("Failed to read image: "), "{}", e);
    assert!(stack.is_empty());
}

#[test]
fn images_and_audio_go_to_the_host() {
    let host = Host::default();
    let mut stack = vec![numbers(vec![2, 3], &[0.0, 0.5, 1.0, 0.25, 0.75, 1.0])];
    assert_eq!(IoOp::ImShow.run(&mut stack, &host, &Marks), Ok(Outcome::Done));
    assert!(stack.is_empty());
    {
        let shown = host.shown.borrow();
        assert_eq!(shown.len(), 1);
        assert_eq!((shown[0].width(), shown[0].height()), (3, 2));
        assert_eq!(shown[0].as_bytes(), &[0u8, 127, 255, 63, 191, 255][..]);
    }
    let mut stack = vec![numbers(vec![1, 1, 5], &[0.0; 5])];
    assert!(IoOp::ImShow.run(&mut stack, &host, &Marks).unwrap_err().ends_with("but it is 5"));
    assert_eq!(host.shown.borrow().len(), 1);

    let mut stack = vec![numbers(vec![2, 2], &[0.5, -0.5, 0.25, -0.25])];
    assert_eq!(IoOp::AudioPlay.run(&mut stack, &host, &Marks), Ok(Outcome::Done));
    assert!(stack.is_empty());
    {
        let played = host.played.borrow();
        assert_eq!(played.len(), 1);
        let mut reader = hound::WavReader::new(std::io::Cursor::new(played[0].clone())).unwrap();
        assert_eq!(reader.spec().channels, 2);
        let samples: Vec<f32> = reader.samples::<f32>().map(|s| s.unwrap()).collect();
        assert_eq!(samples, vec![0.5, 0.25, -0.5, -0.25]);
    }
    let mut stack = vec![text("la")];
    assert_eq!(
        IoOp::AudioPlay.run(&mut stack, &host, &Marks),
        Err("Audio must be a numeric array".to_string())
    );
    assert_eq!(host.played.borrow().len(), 1);
}

#[test]
fn a_host_without_the_optional_capabilities() {
    let host = Bare;
    let file_io = Err("File IO not supported in this environment".to_string());
    for op in [IoOp::FReadStr, IoOp::FReadBytes, IoOp::FLines, IoOp::FListDir, IoOp::FIsFile] {
        let mut stack = vec![text("p")];
        assert_eq!(op.run(&mut stack, &host, &Marks), file_io, "{:?}", op);
        assert!(stack.is_empty());
    }
    let mut stack = vec![text("p")];
    assert_eq!(IoOp::Import.run(&mut stack, &host, &Marks), file_io);
    let mut stack = vec![text("p")];
    assert_eq!(IoOp::ImRead.run(&mut stack, &host, &Marks), file_io);
    let mut stack = vec![text("c"), text("p")];
    assert_eq!(IoOp::FWriteStr.run(&mut stack, &host, &Marks), file_io);
    let mut stack = vec![Value::from_bytes(&vec![1]), text("p")];
    assert_eq!(IoOp::FWriteBytes.run(&mut stack, &host, &Marks), file_io);
    let mut stack = vec![numbers(vec![1, 1], &[0.5]), text("p.png")];
    assert_eq!(IoOp::ImWrite.run(&mut stack, &host, &Marks), file_io);

    let mut stack = vec![text("p")];
    assert_eq!(IoOp::FExists.run(&mut stack, &host, &Marks), Ok(Outcome::Done));
    assert_eq!(stack, vec![Value::from_bool(false)]);
    let mut stack = vec![text("below")];
    assert_eq!(
        IoOp::Scan.run(&mut stack, &host, &Marks),
        Err("Reading lines not supported in this environment".to_string())
    );
    assert_eq!(stack, vec![text("below")]);
    let mut stack = Vec::new();
    assert_eq!(IoOp::Args.run(&mut stack, &host, &Marks), Ok(Outcome::Done));
    assert_eq!(stack, vec![Value::from_lines(Vec::new())]);
    let mut stack = vec![text("HOME")];
    assert_eq!(IoOp::Var.run(&mut stack, &host, &Marks), Ok(Outcome::Done));
    assert_eq!(stack, vec![text("")]);
    let mut stack = Vec::new();
    assert_eq!(IoOp::Rand.run(&mut stack, &host, &Marks), Ok(Outcome::Done));
    assert_eq!(stack, vec![Value::from_num(num(0.5))]);

    let mut stack = vec![numbers(vec![1, 1], &[0.5])];
    assert_eq!(
        IoOp::ImShow.run(&mut stack, &host, &Marks),
        Err("Showing images not supported in this environment".to_string())
    );
    let mut stack = vec![numbers(vec![1], &[0.5])];
    assert_eq!(
        IoOp::AudioPlay.run(&mut stack, &host, &Marks),
        Err("Playing audio not supported in this environment".to_string())
    );
}

#[test]
fn the_answers_of_no_host() {
    let none = Unsupported;
    let file_io = "File IO not supported in this environment".to_string();
    assert_eq!(none.read_file("p"), Err(file_io.clone()));
    assert_eq!(none.write_file("p", vec![1]), Err(file_io.clone()));
    assert_eq!(none.list_dir("p"), Err(file_io.clone()));
    assert_eq!(none.is_file("p"), Err(file_io));
    assert!(!none.file_exists("p"));
    assert_eq!(
        none.scan_line(),
        Err("Reading lines not supported in this environment".to_string())
    );
    assert_eq!(none.var("HOME"), None);
    assert!(none.args().is_empty());
    assert_eq!(
        none.show_image(image::DynamicImage::new_luma8(1, 1)),
        Err("Showing images not supported in this environment".to_string())
    );
    assert_eq!(
        none.play_audio(vec![]),
        Err("Playing audio not supported in this environment".to_string())
    );
}

#[test]
fn what_is_asked_of_the_host() {
    let mut stack = vec![text("x"), text("p.txt")];
    assert_eq!(
        IoOp::FReadStr.prepare(&mut stack),
        Ok(Request::Read { path: "p.txt".to_string(), then: ReadUse::Text })
    );
    assert_eq!(stack, vec![text("x")]);
    for (op, then) in [
        (IoOp::FReadBytes, ReadUse::Bytes),
        (IoOp::FLines, ReadUse::Lines),
        (IoOp::ImRead, ReadUse::Image),
        (IoOp::Import, ReadUse::Module),
    ] {
        let mut stack = vec![text("p")];
        assert_eq!(op.prepare(&mut stack), Ok(Request::Read { path: "p".to_string(), then }));
    }
    let mut stack = vec![text("p")];
    assert_eq!(IoOp::FExists.prepare(&mut stack), Ok(Request::Exists { path: "p".to_string() }));
    let mut stack = vec![text("p")];
    assert_eq!(IoOp::FListDir.prepare(&mut stack), Ok(Request::ListDir { path: "p".to_string() }));
    let mut stack = vec![text("p")];
    assert_eq!(IoOp::FIsFile.prepare(&mut stack), Ok(Request::IsFile { path: "p".to_string() }));
    let mut stack = vec![text("V")];
    assert_eq!(IoOp::Var.prepare(&mut stack), Ok(Request::Var { name: "V".to_string() }));
    let mut stack = vec![text("x"), Value::from_bool(true)];
    assert_eq!(
        IoOp::Show.prepare(&mut stack),
        Ok(Request::Print { value: Value::from_bool(true), grid: true, newline: true })
    );
    assert_eq!(stack, vec![text("x")]);
    let mut stack = vec![text("t")];
    assert_eq!(
        IoOp::Prin.prepare(&mut stack),
        Ok(Request::Print { value: text("t"), grid: false, newline: false })
    );
    let mut stack = vec![text("t")];
    assert_eq!(
        IoOp::Print.prepare(&mut stack),
        Ok(Request::Print { value: text("t"), grid: false, newline: true })
    );
    let mut stack = vec![text("\u{20ac}"), text("p")];
    assert_eq!(
        IoOp::FWriteStr.prepare(&mut stack),
        Ok(Request::Write { path: "p".to_string(), contents: vec![0xe2, 0x82, 0xac] })
    );
    let mut stack = Vec::new();
    assert_eq!(IoOp::Scan.prepare(&mut stack), Ok(Request::ScanLine));
    assert_eq!(IoOp::Args.prepare(&mut stack), Ok(Request::Args));
    assert_eq!(IoOp::Rand.prepare(&mut stack), Ok(Request::Rand));
    let mut stack = vec![numbers(vec![1, 2], &[0.0, 1.0])];
    match IoOp::ImShow.prepare(&mut stack) {
        Ok(Request::ShowImage { image }) => assert_eq!(image.as_bytes(), &[0u8, 255][..]),
        other => panic!("not an image: {:?}", other),
    }
    let mut stack = vec![numbers(vec![1], &[1.0])];
    match IoOp::AudioPlay.prepare(&mut stack) {
        Ok(Request::PlayAudio { wav }) => assert_eq!(&wav[68..], &1.0f32.to_le_bytes()[..]),
        other => panic!("not audio: {:?}", other),
    }
}

#[test]
fn what_an_operation_takes_and_gives() {
    let mut host = Host::default();
    host.files.borrow_mut().insert("p".to_string(), "text".as_bytes().to_vec());
    host.dirs.insert("d".to_string(), vec![]);
    let cases: Vec<(IoOp, Vec<Value>, usize, usize)> = vec![
        (IoOp::Show, vec![text("t")], 1, 0),
        (IoOp::Prin, vec![text("t")], 1, 0),
        (IoOp::Print, vec![text("t")], 1, 0),
        (IoOp::Scan, vec![], 0, 1),
        (IoOp::Args, vec![], 0, 1),
        (IoOp::Var, vec![text("V")], 1, 1),
        (IoOp::Rand, vec![], 0, 1),
        (IoOp::FReadStr, vec![text("p")], 1, 1),
        (IoOp::FWriteStr, vec![text("c"), text("q")], 2, 0),
        (IoOp::FReadBytes, vec![text("p")], 1, 1),
        (IoOp::FWriteBytes, vec![Value::from_bytes(&vec![1]), text("q")], 2, 0),
        (IoOp::FLines, vec![text("p")], 1, 1),
        (IoOp::FExists, vec![text("p")], 1, 1),
        (IoOp::FListDir, vec![text("d")], 1, 1),
        (IoOp::FIsFile, vec![text("p")], 1, 1),
        (IoOp::Now, vec![], 0, 0),
        (IoOp::ImWrite, vec![numbers(vec![1, 1], &[0.5]), text("i.png")], 2, 0),
        (IoOp::ImRead, vec![text("i.png")], 1, 1),
        (IoOp::ImShow, vec![numbers(vec![1, 1], &[0.5])], 1, 0),
        (IoOp::AudioPlay, vec![numbers(vec![1], &[0.5])], 1, 0),
    ];
    for (op, operands, taken, given) in cases {
        assert_eq!(operands.len(), taken);
        assert_eq!(op.args() as usize, taken, "{:?}", op);
        let owed = if op == IoOp::Now { 1 } else { 0 };
        assert_eq!(op.outputs(), Some((given + owed) as u8), "{:?}", op);
        let mut stack = vec![text("bottom"), text("lower")];
        stack.extend(operands);
        assert!(op.run(&mut stack, &host, &Marks).is_ok(), "{:?}", op);
        assert_eq!(stack.len(), 2 + given, "{:?}", op);
        assert_eq!(&stack[..2], &[text("bottom"), text("lower")][..]);
    }
}
