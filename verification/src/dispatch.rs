//! The dispatcher: what each operation takes from the evaluator's stack,
//! what it asks of the host, and what it leaves on the stack.
//!
//! An operation runs in two steps. `IoOp::prepare` takes the operands from
//! the stack, checks them, runs the media codecs and says what to ask of the
//! host: a `Request`. What the host answers is turned into the value to push
//! by `file_value`, `var_value` and the constructors of `Value`. `IoOp::run`
//! does both steps against a host. The top of the stack is the last element.
//!
//! Three things are left to the evaluator. It renders the value that
//! `show`, `prin` and `print` have taken, through a `Renderer`. It imports
//! the module that `import` has read. It pushes the time that `now` asks
//! for.

use crate::audio::{value_to_wav_bytes, wav_of};
use crate::backend::{
    no_audio_output, no_file_io, no_image_display, no_line_input, IoBackend, Renderer, ONE_BITS,
};
use crate::imaging::{
    array_of_image_bytes, format_for_path, format_of_path, image_bytes_of, image_bytes_to_value,
    image_layout, image_of, image_samples, value_to_image, value_to_image_bytes,
};
use crate::op::{args_of, outputs_of, IoOp};
use crate::text::{decimal, decimal_string, lines_of, split_lines, string_from_utf8, utf8_fault};
use crate::value::{
    bytes_value, flag_value, number_value, text_value, ArrayView, Num, Value, ValueView,
};
use vstd::prelude::*;
use vstd::string::*;

verus! {

/// What becomes of the contents of a file that an operation has read.
#[derive(Clone, Copy, Debug, PartialEq, Eq)]
pub enum ReadUse {
    /// The text that the bytes encode is pushed as a string.
    Text,
    /// The bytes are pushed as a byte string.
    Bytes,
    /// The lines of the text that the bytes encode are pushed as a list.
    Lines,
    /// The text that the bytes encode is handed to the evaluator to import.
    Module,
    /// The image that the bytes encode is pushed as an array of bytes.
    Image,
}

/// What an operation asks of the host.
#[derive(Debug, PartialEq)]
pub enum Request {
    /// Write the value to the console, as a grid if `grid` and else in its
    /// plain form, and a line feed after it if `newline`.
    Print { value: Value, grid: bool, newline: bool },
    /// Read a line from the console.
    ScanLine,
    /// Give the arguments of the process.
    Args,
    /// Look up an environment variable.
    Var { name: String },
    /// Draw a random number.
    Rand,
    /// Nothing: the evaluator pushes the time.
    Clock,
    /// Read a file.
    Read { path: String, then: ReadUse },
    /// Write a file.
    Write { path: String, contents: Vec<u8> },
    /// Say whether a path exists.
    Exists { path: String },
    /// List a directory.
    ListDir { path: String },
    /// Say whether a path is a file.
    IsFile { path: String },
    /// Show an image.
    ShowImage { image: image::DynamicImage },
    /// Play the audio of a WAV file.
    PlayAudio { wav: Vec<u8> },
}

/// A request as mathematics sees it. An image is its layout and samples.
pub enum RequestView {
    Print { value: Value, grid: bool, newline: bool },
    ScanLine,
    Args,
    Var { name: Seq<char> },
    Rand,
    Clock,
    Read { path: Seq<char>, then: ReadUse },
    Write { path: Seq<char>, contents: Seq<u8> },
    Exists { path: Seq<char> },
    ListDir { path: Seq<char> },
    IsFile { path: Seq<char> },
    ShowImage { layout: Seq<nat>, samples: Seq<u8> },
    PlayAudio { wav: Seq<u8> },
}

impl View for Request {
    type V = RequestView;

    open spec fn view(&self) -> RequestView {
        match self {
            Request::Print { value, grid, newline } => RequestView::Print {
                value: *value,
                grid: *grid,
                newline: *newline,
            },
            Request::ScanLine => RequestView::ScanLine,
            Request::Args => RequestView::Args,
            Request::Var { name } => RequestView::Var { name: name@ },
            Request::Rand => RequestView::Rand,
            Request::Clock => RequestView::Clock,
            Request::Read { path, then } => RequestView::Read { path: path@, then: *then },
            Request::Write { path, contents } => RequestView::Write {
                path: path@,
                contents: contents@,
            },
            Request::Exists { path } => RequestView::Exists { path: path@ },
            Request::ListDir { path } => RequestView::ListDir { path: path@ },
            Request::IsFile { path } => RequestView::IsFile { path: path@ },
            Request::ShowImage { image } => RequestView::ShowImage {
                layout: image_layout(*image),
                samples: image_samples(*image),
            },
            Request::PlayAudio { wav } => RequestView::PlayAudio { wav: wav@ },
        }
    }
}

/// What is left to the evaluator when an operation has run.
#[derive(Debug, PartialEq, Eq)]
pub enum Outcome {
    /// Nothing.
    Done,
    /// To import the module with this source text, read from this path.
    Import { input: String, path: String },
    /// To push the current time as a number.
    Clock,
}

/// An outcome as mathematics sees it.
pub enum OutcomeView {
    Done,
    Import { input: Seq<char>, path: Seq<char> },
    Clock,
}

impl View for Outcome {
    type V = OutcomeView;

    open spec fn view(&self) -> OutcomeView {
        match self {
            Outcome::Done => OutcomeView::Done,
            Outcome::Import { input, path } => OutcomeView::Import { input: input@, path: path@ },
            Outcome::Clock => OutcomeView::Clock,
        }
    }
}

/// The error for an operand that the stack does not hold.
pub open spec fn empty_stack(arg: nat) -> Seq<char> {
    "Stack was empty when evaluating argument "@ + decimal(arg)
}

/// The error of `import` on a stack that holds values.
pub open spec fn stack_not_empty(depth: nat) -> Seq<char> {
    "Stack must be empty before import, but there are "@ + decimal(depth) + " items on it"@
}

/// The stack without its top, and the top, or the error for operand `arg`
/// on an empty stack.
pub open spec fn take_value(stack: Seq<Value>, arg: nat) -> (Seq<Value>, Result<Value, Seq<char>>) {
    if stack.len() == 0 {
        (stack, Err(empty_stack(arg)))
    } else {
        (stack.drop_last(), Ok(stack.last()))
    }
}

/// The stack without its top, and the text of the top, or the error: for an
/// empty stack as `take_value` gives it, for a top that is no string the
/// requirement.
pub open spec fn take_text(stack: Seq<Value>, arg: nat, requirement: Seq<char>) -> (
    Seq<Value>,
    Result<Seq<char>, Seq<char>>,
) {
    match take_value(stack, arg) {
        (rest, Err(message)) => (rest, Err(message)),
        (rest, Ok(value)) => match value.text() {
            Some(text) => (rest, Ok(text)),
            None => (rest, Err(requirement)),
        },
    }
}

/// The request of an operation that takes a path and nothing else.
pub open spec fn path_request(op: IoOp, path: Seq<char>) -> RequestView {
    match op {
        IoOp::FReadStr => RequestView::Read { path, then: ReadUse::Text },
        IoOp::FReadBytes => RequestView::Read { path, then: ReadUse::Bytes },
        IoOp::FLines => RequestView::Read { path, then: ReadUse::Lines },
        IoOp::ImRead => RequestView::Read { path, then: ReadUse::Image },
        IoOp::FExists => RequestView::Exists { path },
        IoOp::FListDir => RequestView::ListDir { path },
        _ => RequestView::IsFile { path },
    }
}

/// What an operation takes from the stack and asks of the host: the stack
/// that it leaves, and the request or the error.
pub open spec fn plan_of(op: IoOp, stack: Seq<Value>) -> (
    Seq<Value>,
    Result<RequestView, Seq<char>>,
) {
    match op {
        IoOp::Scan => (stack, Ok(RequestView::ScanLine)),
        IoOp::Args => (stack, Ok(RequestView::Args)),
        IoOp::Rand => (stack, Ok(RequestView::Rand)),
        IoOp::Now => (stack, Ok(RequestView::Clock)),
        IoOp::Show => match take_value(stack, 1) {
            (rest, Ok(value)) => (
                rest,
                Ok(RequestView::Print { value, grid: true, newline: true }),
            ),
            (rest, Err(message)) => (rest, Err(message)),
        },
        IoOp::Prin => match take_value(stack, 1) {
            (rest, Ok(value)) => (
                rest,
                Ok(RequestView::Print { value, grid: false, newline: false }),
            ),
            (rest, Err(message)) => (rest, Err(message)),
        },
        IoOp::Print => match take_value(stack, 1) {
            (rest, Ok(value)) => (
                rest,
                Ok(RequestView::Print { value, grid: false, newline: true }),
            ),
            (rest, Err(message)) => (rest, Err(message)),
        },
        IoOp::Var => match take_text(stack, 1, "Augument to var must be a string"@) {
            (rest, Ok(name)) => (rest, Ok(RequestView::Var { name })),
            (rest, Err(message)) => (rest, Err(message)),
        },
        IoOp::FReadStr | IoOp::FReadBytes | IoOp::FLines | IoOp::ImRead | IoOp::FExists
        | IoOp::FListDir | IoOp::FIsFile => match take_text(stack, 1, "Path must be a string"@) {
            (rest, Ok(path)) => (rest, Ok(path_request(op, path))),
            (rest, Err(message)) => (rest, Err(message)),
        },
        IoOp::Import => match take_text(stack, 1, "Import path must be a string"@) {
            (rest, Ok(path)) => if rest.len() > 0 {
                (rest, Err(stack_not_empty(rest.len())))
            } else {
                (rest, Ok(RequestView::Read { path, then: ReadUse::Module }))
            },
            (rest, Err(message)) => (rest, Err(message)),
        },
        IoOp::FWriteStr => match take_text(stack, 1, "Path must be a string"@) {
            (rest, Ok(path)) => match take_text(rest, 2, "Contents must be a string"@) {
                (rest, Ok(text)) => (
                    rest,
                    Ok(RequestView::Write { path, contents: vstd::utf8::encode_utf8(text) }),
                ),
                (rest, Err(message)) => (rest, Err(message)),
            },
            (rest, Err(message)) => (rest, Err(message)),
        },
        IoOp::FWriteBytes => match take_text(stack, 1, "Path must be a string"@) {
            (rest, Ok(path)) => match take_value(rest, 2) {
                (rest, Ok(value)) => match value.bytes() {
                    Some(contents) => (rest, Ok(RequestView::Write { path, contents })),
                    None => (rest, Err("Contents must be a byte array"@)),
                },
                (rest, Err(message)) => (rest, Err(message)),
            },
            (rest, Err(message)) => (rest, Err(message)),
        },
        IoOp::ImWrite => match take_text(stack, 1, "Path must be a string"@) {
            (rest, Ok(path)) => match take_value(rest, 2) {
                (rest, Ok(value)) => match image_bytes_of(value, format_of_path(path)) {
                    Ok(contents) => (rest, Ok(RequestView::Write { path, contents })),
                    Err(message) => (rest, Err(message)),
                },
                (rest, Err(message)) => (rest, Err(message)),
            },
            (rest, Err(message)) => (rest, Err(message)),
        },
        IoOp::ImShow => match take_value(stack, 1) {
            (rest, Ok(value)) => match image_of(value) {
                Ok((layout, samples)) => (rest, Ok(RequestView::ShowImage { layout, samples })),
                Err(message) => (rest, Err(message)),
            },
            (rest, Err(message)) => (rest, Err(message)),
        },
        IoOp::AudioPlay => match take_value(stack, 1) {
            (rest, Ok(value)) => match wav_of(value) {
                Ok(wav) => (rest, Ok(RequestView::PlayAudio { wav })),
                Err(message) => (rest, Err(message)),
            },
            (rest, Err(message)) => (rest, Err(message)),
        },
    }
}

/// Whether a result holds a request with the view, or the message, that is
/// expected of it.
pub open spec fn request_is(r: Result<Request, String>, expected: Result<RequestView, Seq<char>>) -> bool {
    match expected {
        Ok(view) => r matches Ok(request) && request@ == view,
        Err(message) => r matches Err(e) && e@ == message,
    }
}

/// Takes the top of the stack as operand `arg`.
fn pop_value(stack: &mut Vec<Value>, arg: usize) -> (r: Result<Value, String>)
    ensures
        final(stack)@ == take_value(old(stack)@, arg as nat).0,
        match take_value(old(stack)@, arg as nat).1 {
            Ok(value) => r == Ok::<Value, String>(value),
            Err(message) => r matches Err(e) && e@ == message,
        },
{
    match stack.pop() {
        Some(value) => Ok(value),
        None => Err(
            String::from_str("Stack was empty when evaluating argument ").concat(
                decimal_string(arg).as_str(),
            ),
        ),
    }
}

/// Takes the top of the stack as operand `arg`, which has to be a string.
fn pop_text(stack: &mut Vec<Value>, arg: usize, requirement: &str) -> (r: Result<String, String>)
    ensures
        final(stack)@ == take_text(old(stack)@, arg as nat, requirement@).0,
        match take_text(old(stack)@, arg as nat, requirement@).1 {
            Ok(text) => r matches Ok(s) && s@ == text,
            Err(message) => r matches Err(e) && e@ == message,
        },
{
    let value = pop_value(stack, arg)?;
    value.as_string(requirement)
}

impl IoOp {
    /// The first step of an operation: takes the operands from the stack,
    /// checks them, encodes an image or audio, and says what to ask of the
    /// host. An operand that fails its check is an error; it and the operands
    /// taken before it are gone from the stack.
    pub fn prepare(&self, stack: &mut Vec<Value>) -> (r: Result<Request, String>)
        ensures
            final(stack)@ == plan_of(*self, old(stack)@).0,
            request_is(r, plan_of(*self, old(stack)@).1),
    {
        match self {
            IoOp::Scan => Ok(Request::ScanLine),
            IoOp::Args => Ok(Request::Args),
            IoOp::Rand => Ok(Request::Rand),
            IoOp::Now => Ok(Request::Clock),
            IoOp::Show => {
                let value = pop_value(stack, 1)?;
                Ok(Request::Print { value, grid: true, newline: true })
            },
            IoOp::Prin => {
                let value = pop_value(stack, 1)?;
                Ok(Request::Print { value, grid: false, newline: false })
            },
            IoOp::Print => {
                let value = pop_value(stack, 1)?;
                Ok(Request::Print { value, grid: false, newline: true })
            },
            IoOp::Var => {
                let name = pop_text(stack, 1, "Augument to var must be a string")?;
                Ok(Request::Var { name })
            },
            IoOp::FReadStr => {
                let path = pop_text(stack, 1, "Path must be a string")?;
                Ok(Request::Read { path, then: ReadUse::Text })
            },
            IoOp::FReadBytes => {
                let path = pop_text(stack, 1, "Path must be a string")?;
                Ok(Request::Read { path, then: ReadUse::Bytes })
            },
            IoOp::FLines => {
                let path = pop_text(stack, 1, "Path must be a string")?;
                Ok(Request::Read { path, then: ReadUse::Lines })
            },
            IoOp::ImRead => {
                let path = pop_text(stack, 1, "Path must be a string")?;
                Ok(Request::Read { path, then: ReadUse::Image })
            },
            IoOp::FExists => {
                let path = pop_text(stack, 1, "Path must be a string")?;
                Ok(Request::Exists { path })
            },
            IoOp::FListDir => {
                let path = pop_text(stack, 1, "Path must be a string")?;
                Ok(Request::ListDir { path })
            },
            IoOp::FIsFile => {
                let path = pop_text(stack, 1, "Path must be a string")?;
                Ok(Request::IsFile { path })
            },
            IoOp::Import => {
                let path = pop_text(stack, 1, "Import path must be a string")?;
                let depth = stack.len();
                if depth > 0 {
                    let message = String::from_str(
                        "Stack must be empty before import, but there are ",
                    ).concat(decimal_string(depth).as_str()).concat(" items on it");
                    return Err(message);
                }
                Ok(Request::Read { path, then: ReadUse::Module })
            },
            IoOp::FWriteStr => {
                let path = pop_text(stack, 1, "Path must be a string")?;
                let text = pop_text(stack, 2, "Contents must be a string")?;
                Ok(Request::Write { path, contents: text.as_str().as_bytes_vec() })
            },
            IoOp::FWriteBytes => {
                let path = pop_text(stack, 1, "Path must be a string")?;
                let value = pop_value(stack, 2)?;
                let contents = value.as_bytes("Contents must be a byte array")?;
                Ok(Request::Write { path, contents })
            },
            IoOp::ImWrite => {
                let path = pop_text(stack, 1, "Path must be a string")?;
                let value = pop_value(stack, 2)?;
                let format = format_for_path(path.as_str());
                let contents = value_to_image_bytes(&value, format)?;
                Ok(Request::Write { path, contents })
            },
            IoOp::ImShow => {
                let value = pop_value(stack, 1)?;
                let image = value_to_image(&value)?;
                Ok(Request::ShowImage { image })
            },
            IoOp::AudioPlay => {
                let value = pop_value(stack, 1)?;
                let wav = value_to_wav_bytes(&value)?;
                Ok(Request::PlayAudio { wav })
            },
        }
    }
}

/// The text that the contents of a file encode, or the error.
pub open spec fn file_text_of(contents: Seq<u8>) -> Result<Seq<char>, Seq<char>> {
    if vstd::utf8::valid_utf8(contents) {
        Ok(vstd::utf8::decode_utf8(contents))
    } else {
        Err("Failed to read file: "@ + utf8_fault(contents))
    }
}

/// The value that the contents of a file become, or the error.
pub open spec fn file_value_of(then: ReadUse, contents: Seq<u8>) -> Result<ValueView, Seq<char>> {
    match then {
        ReadUse::Bytes => Ok(bytes_value(contents)),
        ReadUse::Text | ReadUse::Module => match file_text_of(contents) {
            Ok(text) => Ok(text_value(text)),
            Err(message) => Err(message),
        },
        ReadUse::Lines => match file_text_of(contents) {
            Ok(text) => Ok(ValueView::Lines(lines_of(text))),
            Err(message) => Err(message),
        },
        ReadUse::Image => match array_of_image_bytes(contents) {
            Ok((dims, items)) => Ok(ValueView::Byte(ArrayView { dims, items })),
            Err(message) => Err(message),
        },
    }
}

/// Decodes the contents of a file as text. Bytes that are not UTF-8 are an
/// error that says where the fault lies, after "Failed to read file: ".
pub fn file_text(contents: Vec<u8>) -> (r: Result<String, String>)
    ensures
        match file_text_of(contents@) {
            Ok(text) => r matches Ok(s) && s@ == text,
            Err(message) => r matches Err(e) && e@ == message,
        },
{
    match string_from_utf8(contents) {
        Ok(text) => Ok(text),
        Err(fault) => Err(String::from_str("Failed to read file: ").concat(fault.as_str())),
    }
}

/// Whether a result holds a well-formed value with the view, or the message,
/// that is expected of it.
pub open spec fn value_is(r: Result<Value, String>, expected: Result<ValueView, Seq<char>>) -> bool {
    match expected {
        Ok(view) => r matches Ok(value) && value@ == view && value.wf(),
        Err(message) => r matches Err(e) && e@ == message,
    }
}

/// Turns the contents of a file into the value that the operation pushes:
/// the text as a string, the bytes as a byte string, the lines of the text as
/// a list, or the image as an array of bytes.
pub fn file_value(then: ReadUse, contents: Vec<u8>) -> (r: Result<Value, String>)
    ensures
        value_is(r, file_value_of(then, contents@)),
{
    match then {
        ReadUse::Bytes => Ok(Value::from_bytes(&contents)),
        ReadUse::Text | ReadUse::Module => {
            let text = file_text(contents)?;
            Ok(Value::from_string(text.as_str()))
        },
        ReadUse::Lines => {
            let text = file_text(contents)?;
            Ok(Value::from_lines(split_lines(text.as_str())))
        },
        ReadUse::Image => image_bytes_to_value(&contents),
    }
}

/// What a host answers to a request.
pub enum Reply {
    /// Nothing comes back from printing.
    Nothing,
    Line(Result<Seq<char>, Seq<char>>),
    Args(Seq<Seq<char>>),
    Var(Option<Seq<char>>),
    Number(Num),
    Exists(bool),
    Contents(Result<Seq<u8>, Seq<char>>),
    Finished(Result<(), Seq<char>>),
    Listing(Result<Seq<Seq<char>>, Seq<char>>),
    IsFile(Result<bool, Seq<char>>),
}

/// Whether a reply is of the kind that answers the request. A random number
/// is below 1. No host is asked for the time.
pub open spec fn answers(request: RequestView, reply: Reply) -> bool {
    match request {
        RequestView::Print { .. } => reply is Nothing,
        RequestView::ScanLine => reply is Line,
        RequestView::Args => reply is Args,
        RequestView::Var { .. } => reply is Var,
        RequestView::Rand => reply matches Reply::Number(n) && n.bits < ONE_BITS,
        RequestView::Clock => reply is Nothing,
        RequestView::Read { .. } => reply is Contents,
        RequestView::Write { .. } => reply is Finished,
        RequestView::Exists { .. } => reply is Exists,
        RequestView::ListDir { .. } => reply is Listing,
        RequestView::IsFile { .. } => reply is IsFile,
        RequestView::ShowImage { .. } => reply is Finished,
        RequestView::PlayAudio { .. } => reply is Finished,
    }
}

/// What an operation comes to once the host has answered.
pub enum Settled {
    /// Nothing is pushed.
    Done,
    /// The value is pushed.
    Push(ValueView),
    /// Nothing is pushed; the evaluator imports the module.
    Import { input: Seq<char>, path: Seq<char> },
    /// Nothing is pushed; the evaluator pushes the time.
    Clock,
}

/// What an operation comes to for a reply that answers its request. An
/// error of the host is the operation's error, as it is.
pub open spec fn settle(request: RequestView, reply: Reply) -> Result<Settled, Seq<char>> {
    match (request, reply) {
        (RequestView::Read { path, then }, Reply::Contents(Ok(contents))) => match then {
            ReadUse::Module => match file_text_of(contents) {
                Ok(input) => Ok(Settled::Import { input, path }),
                Err(message) => Err(message),
            },
            _ => match file_value_of(then, contents) {
                Ok(value) => Ok(Settled::Push(value)),
                Err(message) => Err(message),
            },
        },
        (_, Reply::Contents(Err(message))) => Err(message),
        (_, Reply::Finished(Err(message))) => Err(message),
        (_, Reply::Listing(Err(message))) => Err(message),
        (_, Reply::IsFile(Err(message))) => Err(message),
        (_, Reply::Line(Ok(line))) => Ok(Settled::Push(text_value(line))),
        (_, Reply::Line(Err(message))) => Err(message),
        (_, Reply::Args(args)) => Ok(Settled::Push(ValueView::Lines(args))),
        (_, Reply::Var(found)) => Ok(Settled::Push(var_text(found))),
        (_, Reply::Number(n)) => Ok(Settled::Push(number_value(n))),
        (_, Reply::Exists(exists)) => Ok(Settled::Push(flag_value(exists))),
        (_, Reply::Listing(Ok(paths))) => Ok(Settled::Push(ValueView::Lines(paths))),
        (_, Reply::IsFile(Ok(is_file))) => Ok(Settled::Push(flag_value(is_file))),
        (RequestView::Clock, _) => Ok(Settled::Clock),
        _ => Ok(Settled::Done),
    }
}

/// Whether a result is the error with the given message.
pub open spec fn fails_with(r: Result<Outcome, String>, message: Seq<char>) -> bool {
    r matches Err(e) && e@ == message
}

/// Whether a result is the given outcome.
pub open spec fn comes_to(r: Result<Outcome, String>, outcome: OutcomeView) -> bool {
    r matches Ok(o) && o@ == outcome
}

/// Whether the stack after an operation and its result are what a reply of
/// the host comes to, on the stack that taking the operands has left.
pub open spec fn settled(
    request: RequestView,
    reply: Reply,
    rest: Seq<Value>,
    post: Seq<Value>,
    r: Result<Outcome, String>,
) -> bool {
    match settle(request, reply) {
        Err(message) => post == rest && fails_with(r, message),
        Ok(Settled::Done) => post == rest && comes_to(r, OutcomeView::Done),
        Ok(Settled::Clock) => post == rest && comes_to(r, OutcomeView::Clock),
        Ok(Settled::Import { input, path }) => post == rest && comes_to(
            r,
            OutcomeView::Import { input, path },
        ),
        Ok(Settled::Push(value)) => post.len() == rest.len() + 1 && post.drop_last() == rest
            && post.last()@ == value && post.last().wf() && comes_to(r, OutcomeView::Done),
    }
}

/// Whether the stack after an operation and its result are what the
/// operation comes to on the given stack: the error of its first step, or
/// what some reply of the host that answers its request comes to.
pub open spec fn ran(op: IoOp, pre: Seq<Value>, post: Seq<Value>, r: Result<Outcome, String>) -> bool {
    let (rest, plan) = plan_of(op, pre);
    match plan {
        Err(message) => post == rest && fails_with(r, message),
        Ok(request) => exists|reply: Reply|
            answers(request, reply) && #[trigger] settled(request, reply, rest, post, r),
    }
}

/// The reply that a host gives to a request for a capability that it lacks,
/// and `None` for a request that the host has the capability for: there the
/// host decides.
pub open spec fn forced<B: IoBackend>(io: &B, request: RequestView) -> Option<Reply> {
    match request {
        RequestView::ScanLine => if io.has_input() {
            None
        } else {
            Some(Reply::Line(Err(no_line_input())))
        },
        RequestView::Args => if io.has_args() {
            None
        } else {
            Some(Reply::Args(Seq::empty()))
        },
        RequestView::Var { .. } => if io.has_vars() {
            None
        } else {
            Some(Reply::Var(None))
        },
        RequestView::Read { .. } => if io.has_files() {
            None
        } else {
            Some(Reply::Contents(Err(no_file_io())))
        },
        RequestView::Write { .. } => if io.has_files() {
            None
        } else {
            Some(Reply::Finished(Err(no_file_io())))
        },
        RequestView::Exists { .. } => if io.has_files() {
            None
        } else {
            Some(Reply::Exists(false))
        },
        RequestView::ListDir { .. } => if io.has_files() {
            None
        } else {
            Some(Reply::Listing(Err(no_file_io())))
        },
        RequestView::IsFile { .. } => if io.has_files() {
            None
        } else {
            Some(Reply::IsFile(Err(no_file_io())))
        },
        RequestView::ShowImage { .. } => if io.has_display() {
            None
        } else {
            Some(Reply::Finished(Err(no_image_display())))
        },
        RequestView::PlayAudio { .. } => if io.has_audio() {
            None
        } else {
            Some(Reply::Finished(Err(no_audio_output())))
        },
        _ => None,
    }
}

/// Whether the stack after an operation and its result are what the
/// operation comes to on a host that lacks the capability it asks for: what
/// the fixed reply of such a host comes to. It holds of any stack and result
/// where the first step fails or the host has the capability.
pub open spec fn ran_without<B: IoBackend>(
    op: IoOp,
    io: &B,
    pre: Seq<Value>,
    post: Seq<Value>,
    r: Result<Outcome, String>,
) -> bool {
    let (rest, plan) = plan_of(op, pre);
    match plan {
        Err(_) => true,
        Ok(request) => match forced(io, request) {
            None => true,
            Some(reply) => settled(request, reply, rest, post, r),
        },
    }
}

/// The strings of a list, each as its text.
pub open spec fn texts(list: Seq<String>) -> Seq<Seq<char>> {
    list.map_values(|s: String| s@)
}

/// What is written to the console for a value that was rendered as `text`:
/// the text, and a line feed after it if `newline`.
pub open spec fn printed(text: Seq<char>, newline: bool) -> Seq<Seq<char>> {
    if newline {
        seq![text, seq!['\n']]
    } else {
        seq![text]
    }
}

/// The pieces to write to the console, in order, for a value that was
/// rendered as `text`.
pub fn print_parts(text: String, newline: bool) -> (parts: Vec<String>)
    ensures
        texts(parts@) == printed(text@, newline),
{
    let mut parts: Vec<String> = Vec::new();
    parts.push(text);
    if newline {
        let feed = String::from_str("\n");
        proof {
            reveal_strlit("\n");
            assert(feed@ =~= seq!['\n']);
        }
        parts.push(feed);
    }
    assert(texts(parts@) =~= printed(text@, newline));
    parts
}

/// The text of a string that may be absent.
pub open spec fn found_text(found: Option<String>) -> Option<Seq<char>> {
    match found {
        Some(value) => Some(value@),
        None => None,
    }
}

/// The value that a lookup of an environment variable becomes: the string
/// that holds its value, and the empty string if it is not set.
pub open spec fn var_text(found: Option<Seq<char>>) -> ValueView {
    match found {
        Some(value) => text_value(value),
        None => text_value(Seq::empty()),
    }
}

/// Turns the result of looking up an environment variable into the value
/// to push: its value as a string, and the empty string if it is not set.
pub fn var_value(found: Option<String>) -> (v: Value)
    ensures
        v@ == var_text(found_text(found)),
        v.wf(),
{
    match found {
        Some(value) => Value::from_string(value.as_str()),
        None => {
            let empty = String::new();
            Value::from_string(empty.as_str())
        },
    }
}

/// Pushes a value and reports that nothing is left to do.
fn push_done(stack: &mut Vec<Value>, value: Value) -> (r: Result<Outcome, String>)
    ensures
        final(stack)@ == old(stack)@.push(value),
        r matches Ok(outcome) && outcome@ == OutcomeView::Done,
{
    stack.push(value);
    Ok(Outcome::Done)
}

impl IoOp {
    /// Runs an operation against a host: takes the operands from the stack
    /// as `prepare` does, asks the host, and pushes what the answer becomes.
    /// A value to print is rendered by the renderer and written to the
    /// console in the pieces that `print_parts` gives.
    ///
    /// An error of the first step, of the host, or of decoding what the host
    /// has read is the result, and nothing is pushed then. On a host that
    /// lacks the capability that the operation asks for, the operation comes
    /// to what the fixed answer of such a host comes to.
    pub fn run<B: IoBackend, R: Renderer>(
        &self,
        stack: &mut Vec<Value>,
        io: &B,
        renderer: &R,
    ) -> (r: Result<Outcome, String>)
        ensures
            ran(*self, old(stack)@, final(stack)@, r),
            ran_without(*self, io, old(stack)@, final(stack)@, r),
    {
        let ghost pre = stack@;
        let request = match self.prepare(stack) {
            Ok(request) => request,
            Err(message) => {
                return Err(message);
            },
        };
        let ghost rest = stack@;
        let ghost asked = request@;
        assert(plan_of(*self, pre) == (rest, Ok::<RequestView, Seq<char>>(asked)));
        match request {
            Request::Print { value, grid, newline } => {
                let text = if grid {
                    renderer.grid_string(&value)
                } else {
                    renderer.display_string(&value)
                };
                let parts = print_parts(text, newline);
                let mut i: usize = 0;
                while i < parts.len()
                    invariant
                        i <= parts.len(),
                    decreases parts.len() - i,
                {
                    io.print_str(parts[i].as_str());
                    i = i + 1;
                }
                assert(settled(asked, Reply::Nothing, rest, stack@, Ok(Outcome::Done)));
                Ok(Outcome::Done)
            },
            Request::ScanLine => {
                match io.scan_line() {
                    Ok(line) => {
                        let r = push_done(stack, Value::from_string(line.as_str()));
                        assert(stack@.drop_last() == rest);
                        assert(settled(asked, Reply::Line(Ok(line@)), rest, stack@, r));
                        r
                    },
                    Err(message) => {
                        let r = Err(message);
                        assert(settled(asked, Reply::Line(Err(message@)), rest, stack@, r));
                        r
                    },
                }
            },
            Request::Args => {
                let args = io.args();
                let ghost reply = Reply::Args(texts(args@));
                assert(args@.len() == 0 ==> texts(args@) =~= Seq::<Seq<char>>::empty());
                let r = push_done(stack, Value::from_lines(args));
                assert(stack@.drop_last() == rest);
                assert(settled(asked, reply, rest, stack@, r));
                r
            },
            Request::Var { name } => {
                let found = io.var(name.as_str());
                let ghost reply = Reply::Var(found_text(found));
                let r = push_done(stack, var_value(found));
                assert(stack@.drop_last() == rest);
                assert(settled(asked, reply, rest, stack@, r));
                r
            },
            Request::Rand => {
                let n = io.rand();
                let r = push_done(stack, Value::from_num(n));
                assert(stack@.drop_last() == rest);
                assert(settled(asked, Reply::Number(n), rest, stack@, r));
                r
            },
            Request::Clock => {
                assert(settled(asked, Reply::Nothing, rest, stack@, Ok(Outcome::Clock)));
                Ok(Outcome::Clock)
            },
            Request::Read { path, then } => {
                match io.read_file(path.as_str()) {
                    Err(message) => {
                        let r = Err(message);
                        assert(settled(asked, Reply::Contents(Err(message@)), rest, stack@, r));
                        r
                    },
                    Ok(contents) => {
                        let ghost reply = Reply::Contents(Ok(contents@));
                        match then {
                            ReadUse::Module => {
                                let r = match file_text(contents) {
                                    Ok(input) => Ok(Outcome::Import { input, path }),
                                    Err(message) => Err(message),
                                };
                                assert(settled(asked, reply, rest, stack@, r));
                                r
                            },
                            _ => {
                                match file_value(then, contents) {
                                    Ok(value) => {
                                        let r = push_done(stack, value);
                                        assert(stack@.drop_last() == rest);
                                        assert(settled(asked, reply, rest, stack@, r));
                                        r
                                    },
                                    Err(message) => {
                                        let r = Err(message);
                                        assert(settled(asked, reply, rest, stack@, r));
                                        r
                                    },
                                }
                            },
                        }
                    },
                }
            },
            Request::Write { path, contents } => {
                match io.write_file(path.as_str(), contents) {
                    Ok(()) => {
                        assert(settled(
                            asked,
                            Reply::Finished(Ok(())),
                            rest,
                            stack@,
                            Ok(Outcome::Done),
                        ));
                        Ok(Outcome::Done)
                    },
                    Err(message) => {
                        let r = Err(message);
                        assert(settled(asked, Reply::Finished(Err(message@)), rest, stack@, r));
                        r
                    },
                }
            },
            Request::Exists { path } => {
                let exists = io.file_exists(path.as_str());
                let r = push_done(stack, Value::from_bool(exists));
                assert(stack@.drop_last() == rest);
                assert(settled(asked, Reply::Exists(exists), rest, stack@, r));
                r
            },
            Request::ListDir { path } => {
                match io.list_dir(path.as_str()) {
                    Ok(paths) => {
                        let ghost reply = Reply::Listing(Ok(texts(paths@)));
                        let r = push_done(stack, Value::from_lines(paths));
                        assert(stack@.drop_last() == rest);
                        assert(settled(asked, reply, rest, stack@, r));
                        r
                    },
                    Err(message) => {
                        let r = Err(message);
                        assert(settled(asked, Reply::Listing(Err(message@)), rest, stack@, r));
                        r
                    },
                }
            },
            Request::IsFile { path } => {
                match io.is_file(path.as_str()) {
                    Ok(is_file) => {
                        let r = push_done(stack, Value::from_bool(is_file));
                        assert(stack@.drop_last() == rest);
                        assert(settled(asked, Reply::IsFile(Ok(is_file)), rest, stack@, r));
                        r
                    },
                    Err(message) => {
                        let r = Err(message);
                        assert(settled(asked, Reply::IsFile(Err(message@)), rest, stack@, r));
                        r
                    },
                }
            },
            Request::ShowImage { image } => {
                match io.show_image(image) {
                    Ok(()) => {
                        assert(settled(
                            asked,
                            Reply::Finished(Ok(())),
                            rest,
                            stack@,
                            Ok(Outcome::Done),
                        ));
                        Ok(Outcome::Done)
                    },
                    Err(message) => {
                        let r = Err(message);
                        assert(settled(asked, Reply::Finished(Err(message@)), rest, stack@, r));
                        r
                    },
                }
            },
            Request::PlayAudio { wav } => {
                match io.play_audio(wav) {
                    Ok(()) => {
                        assert(settled(
                            asked,
                            Reply::Finished(Ok(())),
                            rest,
                            stack@,
                            Ok(Outcome::Done),
                        ));
                        Ok(Outcome::Done)
                    },
                    Err(message) => {
                        let r = Err(message);
                        assert(settled(asked, Reply::Finished(Err(message@)), rest, stack@, r));
                        r
                    },
                }
            },
        }
    }
}

/// The number of values that an operation has left to the evaluator to
/// push: one where the outcome is the time to push, none otherwise.
pub open spec fn owed(r: Result<Outcome, String>) -> nat {
    if r matches Ok(Outcome::Clock) {
        1
    } else {
        0
    }
}

/// An operation that succeeds has taken exactly as many values from the top
/// of the stack as it has arguments, and left exactly as many in their place
/// as it has outputs; what lay below is as it was. The one output of `now`
/// is not on the stack yet: it is owed by the evaluator, which the outcome
/// says.
pub proof fn lemma_stack_effect(op: IoOp, pre: Seq<Value>, post: Seq<Value>, r: Result<
    Outcome,
    String,
>)
    requires
        ran(op, pre, post, r),
        r is Ok,
    ensures
        pre.len() >= args_of(op),
        post.len() + owed(r) == pre.len() - args_of(op) + outputs_of(op),
        owed(r) == 1 <==> op == IoOp::Now,
        post.take(pre.len() - args_of(op)) == pre.take(pre.len() - args_of(op)),
{
    let (rest, plan) = plan_of(op, pre);
    lemma_plan_takes(op, pre);
    let request = plan->Ok_0;
    let reply = choose|reply: Reply|
        answers(request, reply) && #[trigger] settled(request, reply, rest, post, r);
    let below = pre.len() - args_of(op);
    assert(rest == pre.take(below));
    if post.len() == rest.len() + 1 {
        assert(post.drop_last() == rest);
        assert(post.take(below) =~= post.drop_last());
    } else {
        assert(post == rest);
        assert(post.take(below) =~= post);
    }
    assert(pre.take(below).take(below) =~= pre.take(below));
}

/// The first step of an operation, when it succeeds, takes exactly as many
/// values from the top of the stack as the operation has arguments.
pub proof fn lemma_plan_takes(op: IoOp, pre: Seq<Value>)
    requires
        plan_of(op, pre).1 is Ok,
    ensures
        pre.len() >= args_of(op),
        plan_of(op, pre).0 == pre.take(pre.len() - args_of(op)),
{
    let one = pre.drop_last();
    assert(pre.take(pre.len() as int) =~= pre);
    if pre.len() >= 1 {
        assert(pre.take(pre.len() - 1) =~= one);
    }
    if pre.len() >= 2 {
        assert(pre.take(pre.len() - 2) =~= one.drop_last());
    }
}

/// Writing a byte string to a file and reading the file back as bytes gives
/// the same bytes: `fwritebytes` hands the host the bytes of the value, and
/// for a host that answers a read with those bytes `freadbytes` pushes the
/// byte string that holds them.
pub proof fn lemma_bytes_round_trip(below: Seq<Value>, contents: Value, path: Value)
    requires
        contents.bytes() is Some,
        path.text() is Some,
    ensures
        plan_of(IoOp::FWriteBytes, below.push(contents).push(path)) == (
            below,
            Ok::<RequestView, Seq<char>>(
                RequestView::Write { path: path.text()->0, contents: contents.bytes()->0 },
            ),
        ),
        plan_of(IoOp::FReadBytes, below.push(path)) == (
            below,
            Ok::<RequestView, Seq<char>>(
                RequestView::Read { path: path.text()->0, then: ReadUse::Bytes },
            ),
        ),
        settle(
            RequestView::Read { path: path.text()->0, then: ReadUse::Bytes },
            Reply::Contents(Ok(contents.bytes()->0)),
        ) == Ok::<Settled, Seq<char>>(Settled::Push(bytes_value(contents.bytes()->0))),
{
    let two = below.push(contents).push(path);
    assert(two.drop_last() =~= below.push(contents));
    assert(below.push(contents).drop_last() =~= below);
    assert(below.push(path).drop_last() =~= below);
}

/// Writing a string to a file and reading the file back as text gives the
/// same string: `fwritestr` hands the host the UTF-8 encoding of the text,
/// and for a host that answers a read with those bytes `freadstr` pushes the
/// string that holds the text.
pub proof fn lemma_text_round_trip(below: Seq<Value>, contents: Value, path: Value)
    requires
        contents.text() is Some,
        path.text() is Some,
    ensures
        plan_of(IoOp::FWriteStr, below.push(contents).push(path)) == (
            below,
            Ok::<RequestView, Seq<char>>(
                RequestView::Write {
                    path: path.text()->0,
                    contents: vstd::utf8::encode_utf8(contents.text()->0),
                },
            ),
        ),
        plan_of(IoOp::FReadStr, below.push(path)) == (
            below,
            Ok::<RequestView, Seq<char>>(
                RequestView::Read { path: path.text()->0, then: ReadUse::Text },
            ),
        ),
        settle(
            RequestView::Read { path: path.text()->0, then: ReadUse::Text },
            Reply::Contents(Ok(vstd::utf8::encode_utf8(contents.text()->0))),
        ) == Ok::<Settled, Seq<char>>(Settled::Push(text_value(contents.text()->0))),
{
    let two = below.push(contents).push(path);
    assert(two.drop_last() =~= below.push(contents));
    assert(below.push(contents).drop_last() =~= below);
    assert(below.push(path).drop_last() =~= below);
    vstd::utf8::encode_utf8_valid_utf8(contents.text()->0);
    vstd::utf8::encode_utf8_decode_utf8(contents.text()->0);
}

} // verus!
