//! The catalogue of operations: their names and how many values each takes
//! from the stack and leaves on it.

use crate::text::same_text;
use vstd::prelude::*;

verus! {

/// An operation on the host. The evaluator finds it by its name.
#[derive(Clone, Copy, Debug, PartialEq, Eq, PartialOrd, Ord, Hash)]
pub enum IoOp {
    Show,
    Prin,
    Print,
    Scan,
    Args,
    Var,
    Rand,
    FReadStr,
    FWriteStr,
    FReadBytes,
    FWriteBytes,
    FLines,
    FExists,
    FListDir,
    FIsFile,
    Import,
    Now,
    ImRead,
    ImWrite,
    ImShow,
    AudioPlay,
}

/// The operations in the order of the catalogue.
pub open spec fn catalogue() -> Seq<IoOp> {
    seq![
        IoOp::Show,
        IoOp::Prin,
        IoOp::Print,
        IoOp::Scan,
        IoOp::Args,
        IoOp::Var,
        IoOp::Rand,
        IoOp::FReadStr,
        IoOp::FWriteStr,
        IoOp::FReadBytes,
        IoOp::FWriteBytes,
        IoOp::FLines,
        IoOp::FExists,
        IoOp::FListDir,
        IoOp::FIsFile,
        IoOp::Import,
        IoOp::Now,
        IoOp::ImRead,
        IoOp::ImWrite,
        IoOp::ImShow,
        IoOp::AudioPlay,
    ]
}

/// The operation's name.
pub open spec fn name_of(op: IoOp) -> Seq<char> {
    match op {
        IoOp::Show => "show"@,
        IoOp::Prin => "prin"@,
        IoOp::Print => "print"@,
        IoOp::Scan => "scan"@,
        IoOp::Args => "args"@,
        IoOp::Var => "var"@,
        IoOp::Rand => "rand"@,
        IoOp::FReadStr => "freadstr"@,
        IoOp::FWriteStr => "fwritestr"@,
        IoOp::FReadBytes => "freadbytes"@,
        IoOp::FWriteBytes => "fwritebytes"@,
        IoOp::FLines => "flines"@,
        IoOp::FExists => "fexists"@,
        IoOp::FListDir => "flistdir"@,
        IoOp::FIsFile => "fisfile"@,
        IoOp::Import => "import"@,
        IoOp::Now => "now"@,
        IoOp::ImRead => "imread"@,
        IoOp::ImWrite => "imwrite"@,
        IoOp::ImShow => "imshow"@,
        IoOp::AudioPlay => "audioplay"@,
    }
}

/// Whether some operation has this name.
pub open spec fn is_name(name: Seq<char>) -> bool {
    exists|op: IoOp| name_of(op) == name
}

/// The number of values the operation takes from the stack: none to read
/// the console, the arguments, a random number or the time, the path and the
/// contents to write a file, and one for every other.
pub open spec fn args_of(op: IoOp) -> u8 {
    match op {
        IoOp::Scan | IoOp::Args | IoOp::Rand | IoOp::Now => 0,
        IoOp::FWriteStr | IoOp::FWriteBytes | IoOp::ImWrite => 2,
        _ => 1,
    }
}

/// The number of values the operation leaves on the stack when it succeeds:
/// none for the operations that print, write a file, import a module, show
/// an image or play audio, one for every other.
pub open spec fn outputs_of(op: IoOp) -> u8 {
    match op {
        IoOp::Show | IoOp::Prin | IoOp::Print | IoOp::FWriteStr | IoOp::FWriteBytes
        | IoOp::Import | IoOp::ImWrite | IoOp::ImShow | IoOp::AudioPlay => 0,
        _ => 1,
    }
}

/// What the names hold, letter by letter.
pub proof fn lemma_names()
    ensures
        "show"@ == seq!['s', 'h', 'o', 'w'],
        "prin"@ == seq!['p', 'r', 'i', 'n'],
        "print"@ == seq!['p', 'r', 'i', 'n', 't'],
        "scan"@ == seq!['s', 'c', 'a', 'n'],
        "args"@ == seq!['a', 'r', 'g', 's'],
        "var"@ == seq!['v', 'a', 'r'],
        "rand"@ == seq!['r', 'a', 'n', 'd'],
        "freadstr"@ == seq!['f', 'r', 'e', 'a', 'd', 's', 't', 'r'],
        "fwritestr"@ == seq!['f', 'w', 'r', 'i', 't', 'e', 's', 't', 'r'],
        "freadbytes"@ == seq!['f', 'r', 'e', 'a', 'd', 'b', 'y', 't', 'e', 's'],
        "fwritebytes"@ == seq!['f', 'w', 'r', 'i', 't', 'e', 'b', 'y', 't', 'e', 's'],
        "flines"@ == seq!['f', 'l', 'i', 'n', 'e', 's'],
        "fexists"@ == seq!['f', 'e', 'x', 'i', 's', 't', 's'],
        "flistdir"@ == seq!['f', 'l', 'i', 's', 't', 'd', 'i', 'r'],
        "fisfile"@ == seq!['f', 'i', 's', 'f', 'i', 'l', 'e'],
        "import"@ == seq!['i', 'm', 'p', 'o', 'r', 't'],
        "now"@ == seq!['n', 'o', 'w'],
        "imread"@ == seq!['i', 'm', 'r', 'e', 'a', 'd'],
        "imwrite"@ == seq!['i', 'm', 'w', 'r', 'i', 't', 'e'],
        "imshow"@ == seq!['i', 'm', 's', 'h', 'o', 'w'],
        "audioplay"@ == seq!['a', 'u', 'd', 'i', 'o', 'p', 'l', 'a', 'y'],
{
    reveal_strlit("show");
    reveal_strlit("prin");
    reveal_strlit("print");
    reveal_strlit("scan");
    reveal_strlit("args");
    reveal_strlit("var");
    reveal_strlit("rand");
    reveal_strlit("freadstr");
    reveal_strlit("fwritestr");
    reveal_strlit("freadbytes");
    reveal_strlit("fwritebytes");
    reveal_strlit("flines");
    reveal_strlit("fexists");
    reveal_strlit("flistdir");
    reveal_strlit("fisfile");
    reveal_strlit("import");
    reveal_strlit("now");
    reveal_strlit("imread");
    reveal_strlit("imwrite");
    reveal_strlit("imshow");
    reveal_strlit("audioplay");
    assert("show"@ =~= seq!['s', 'h', 'o', 'w']);
    assert("prin"@ =~= seq!['p', 'r', 'i', 'n']);
    assert("print"@ =~= seq!['p', 'r', 'i', 'n', 't']);
    assert("scan"@ =~= seq!['s', 'c', 'a', 'n']);
    assert("args"@ =~= seq!['a', 'r', 'g', 's']);
    assert("var"@ =~= seq!['v', 'a', 'r']);
    assert("rand"@ =~= seq!['r', 'a', 'n', 'd']);
    assert("freadstr"@ =~= seq!['f', 'r', 'e', 'a', 'd', 's', 't', 'r']);
    assert("fwritestr"@ =~= seq!['f', 'w', 'r', 'i', 't', 'e', 's', 't', 'r']);
    assert("freadbytes"@ =~= seq!['f', 'r', 'e', 'a', 'd', 'b', 'y', 't', 'e', 's']);
    assert("fwritebytes"@ =~= seq!['f', 'w', 'r', 'i', 't', 'e', 'b', 'y', 't', 'e', 's']);
    assert("flines"@ =~= seq!['f', 'l', 'i', 'n', 'e', 's']);
    assert("fexists"@ =~= seq!['f', 'e', 'x', 'i', 's', 't', 's']);
    assert("flistdir"@ =~= seq!['f', 'l', 'i', 's', 't', 'd', 'i', 'r']);
    assert("fisfile"@ =~= seq!['f', 'i', 's', 'f', 'i', 'l', 'e']);
    assert("import"@ =~= seq!['i', 'm', 'p', 'o', 'r', 't']);
    assert("now"@ =~= seq!['n', 'o', 'w']);
    assert("imread"@ =~= seq!['i', 'm', 'r', 'e', 'a', 'd']);
    assert("imwrite"@ =~= seq!['i', 'm', 'w', 'r', 'i', 't', 'e']);
    assert("imshow"@ =~= seq!['i', 'm', 's', 'h', 'o', 'w']);
    assert("audioplay"@ =~= seq!['a', 'u', 'd', 'i', 'o', 'p', 'l', 'a', 'y']);
}

/// No two operations share a name.
pub proof fn lemma_names_differ(a: IoOp, b: IoOp)
    requires
        name_of(a) == name_of(b),
    ensures
        a == b,
{
    lemma_names();
    let x = name_of(a);
    let y = name_of(b);
    assert(x.len() == y.len());
    if x.len() >= 3 {
        assert(x[0] == y[0] && x[1] == y[1] && x[2] == y[2]);
    }
    if x.len() >= 6 {
        assert(x[5] == y[5]);
    }
}

impl IoOp {
    /// The operations, each once, in the order of the catalogue.
    pub fn all() -> (ops: Vec<IoOp>)
        ensures
            ops@ == catalogue(),
            forall|op: IoOp| ops@.contains(op),
            ops@.no_duplicates(),
    {
        let mut ops: Vec<IoOp> = Vec::new();
        ops.push(IoOp::Show);
        ops.push(IoOp::Prin);
        ops.push(IoOp::Print);
        ops.push(IoOp::Scan);
        ops.push(IoOp::Args);
        ops.push(IoOp::Var);
        ops.push(IoOp::Rand);
        ops.push(IoOp::FReadStr);
        ops.push(IoOp::FWriteStr);
        ops.push(IoOp::FReadBytes);
        ops.push(IoOp::FWriteBytes);
        ops.push(IoOp::FLines);
        ops.push(IoOp::FExists);
        ops.push(IoOp::FListDir);
        ops.push(IoOp::FIsFile);
        ops.push(IoOp::Import);
        ops.push(IoOp::Now);
        ops.push(IoOp::ImRead);
        ops.push(IoOp::ImWrite);
        ops.push(IoOp::ImShow);
        ops.push(IoOp::AudioPlay);
        proof {
            assert(ops@ =~= catalogue());
            assert forall|op: IoOp| ops@.contains(op) by {
                let i: int = match op {
                    IoOp::Show => 0,
                    IoOp::Prin => 1,
                    IoOp::Print => 2,
                    IoOp::Scan => 3,
                    IoOp::Args => 4,
                    IoOp::Var => 5,
                    IoOp::Rand => 6,
                    IoOp::FReadStr => 7,
                    IoOp::FWriteStr => 8,
                    IoOp::FReadBytes => 9,
                    IoOp::FWriteBytes => 10,
                    IoOp::FLines => 11,
                    IoOp::FExists => 12,
                    IoOp::FListDir => 13,
                    IoOp::FIsFile => 14,
                    IoOp::Import => 15,
                    IoOp::Now => 16,
                    IoOp::ImRead => 17,
                    IoOp::ImWrite => 18,
                    IoOp::ImShow => 19,
                    IoOp::AudioPlay => 20,
                };
                assert(ops@[i] == op);
            }
        }
        ops
    }

    /// The operation of the given name, if there is one.
    pub fn from_name(s: &str) -> (found: Option<IoOp>)
        ensures
            match found {
                Some(op) => name_of(op) == s@,
                None => !is_name(s@),
            },
    {
        let ops = IoOp::all();
        let mut i: usize = 0;
        while i < ops.len()
            invariant
                i <= ops.len(),
                forall|op: IoOp| ops@.contains(op),
                forall|j: int| 0 <= j < i ==> name_of(#[trigger] ops@[j]) != s@,
            decreases ops.len() - i,
        {
            if same_text(ops[i].name(), s) {
                return Some(ops[i]);
            }
            i = i + 1;
        }
        proof {
            assert forall|op: IoOp| name_of(op) != s@ by {
                assert(ops@.contains(op));
                let j = choose|j: int| 0 <= j < ops@.len() && ops@[j] == op;
                assert(name_of(ops@[j]) != s@);
            }
        }
        None
    }

    /// The operation's name.
    pub fn name(&self) -> (s: &'static str)
        ensures
            s@ == name_of(*self),
    {
        match self {
            IoOp::Show => "show",
            IoOp::Prin => "prin",
            IoOp::Print => "print",
            IoOp::Scan => "scan",
            IoOp::Args => "args",
            IoOp::Var => "var",
            IoOp::Rand => "rand",
            IoOp::FReadStr => "freadstr",
            IoOp::FWriteStr => "fwritestr",
            IoOp::FReadBytes => "freadbytes",
            IoOp::FWriteBytes => "fwritebytes",
            IoOp::FLines => "flines",
            IoOp::FExists => "fexists",
            IoOp::FListDir => "flistdir",
            IoOp::FIsFile => "fisfile",
            IoOp::Import => "import",
            IoOp::Now => "now",
            IoOp::ImRead => "imread",
            IoOp::ImWrite => "imwrite",
            IoOp::ImShow => "imshow",
            IoOp::AudioPlay => "audioplay",
        }
    }

    /// The number of values the operation takes from the stack.
    pub fn args(&self) -> (n: u8)
        ensures
            n == args_of(*self),
    {
        match self {
            IoOp::Scan | IoOp::Args | IoOp::Rand | IoOp::Now => 0,
            IoOp::FWriteStr | IoOp::FWriteBytes | IoOp::ImWrite => 2,
            _ => 1,
        }
    }

    /// The number of values the operation leaves on the stack when it
    /// succeeds. Every operation has one.
    pub fn outputs(&self) -> (n: Option<u8>)
        ensures
            n == Some(outputs_of(*self)),
    {
        match self {
            IoOp::Show | IoOp::Prin | IoOp::Print | IoOp::FWriteStr | IoOp::FWriteBytes
            | IoOp::Import | IoOp::ImWrite | IoOp::ImShow | IoOp::AudioPlay => Some(0),
            _ => Some(1),
        }
    }
}

/// Looking a name up gives back the operation that has it: the names tell
/// the operations apart.
pub proof fn lemma_name_round_trip(op: IoOp, found: Option<IoOp>)
    requires
        match found {
            Some(other) => name_of(other) == name_of(op),
            None => !is_name(name_of(op)),
        },
    ensures
        found == Some(op),
{
    match found {
        Some(other) => {
            lemma_names_differ(other, op);
        },
        None => {
            assert(name_of(op) == name_of(op));
        },
    }
}

} // verus!
