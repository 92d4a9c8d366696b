//! The events of the line-streaming process engine, the check made before
//! any process is started, and the shell and interpreter command lines.
use vstd::prelude::*;
use crate::paths::{cmd_path, is_windows, path_for_cmd, texts_of};
use crate::text::{chars_of, nat_text, owned, push_nat, text_of};

verus! {

#[derive(Debug, Clone, Copy, PartialEq, Eq, Structural)]
pub enum ProcEventKind {
    /// One line of the child's merged output, its line ending removed.
    Line,
    /// The child ended; comes once, after every line.
    Exit,
}

/// One event of a running child process.
#[derive(Debug, Clone)]
pub struct ProcEvent {
    pub kind: ProcEventKind,
    pub text: String,
    pub returncode: Option<i32>,
}

impl PartialEq for ProcEvent {
    fn eq(&self, o: &ProcEvent) -> (r: bool) {
        self.kind == o.kind && self.text == o.text && self.returncode == o.returncode
    }
}

impl vstd::std_specs::cmp::PartialEqSpecImpl for ProcEvent {
    open spec fn obeys_eq_spec() -> bool {
        true
    }

    open spec fn eq_spec(&self, o: &ProcEvent) -> bool {
        self.kind == o.kind && self.text@ == o.text@ && self.returncode == o.returncode
    }
}

impl Eq for ProcEvent {
}

/// Why no process was started.
#[derive(Debug, Clone)]
pub enum ProcessError {
    /// The command vector was empty.
    EmptyArgv,
    /// The system could not start the program; the text says why.
    Spawn(String),
}

/// A command vector may be run only when it names a program: an empty one
/// is refused before any process is created.
pub fn check_argv(argv: &Vec<String>) -> (r: Result<(), ProcessError>)
    ensures
        r is Err <==> argv.len() == 0,
        r is Err ==> r->Err_0 is EmptyArgv,
{
    if argv.len() == 0 {
        Err(ProcessError::EmptyArgv)
    } else {
        Ok(())
    }
}

/// `s` without its trailing `\n` and `\r` characters.
pub open spec fn strip_line_end(s: Seq<char>) -> Seq<char>
    decreases s.len(),
{
    if s.len() > 0 && (s.last() == '\n' || s.last() == '\r') {
        strip_line_end(s.drop_last())
    } else {
        s
    }
}

/// The event for one line read from the child, line ending removed.
pub fn line_event(raw: &str) -> (r: ProcEvent)
    ensures
        r.kind == ProcEventKind::Line,
        r.text@ == strip_line_end(raw@),
        r.returncode is None,
{
    let v = chars_of(raw);
    let mut j: usize = v.len();
    assert(v@.subrange(0, v.len() as int) =~= v@);
    while j > 0 && (v[j - 1] == '\n' || v[j - 1] == '\r')
        invariant
            j <= v.len(),
            v@ == raw@,
            strip_line_end(raw@) == strip_line_end(v@.subrange(0, j as int)),
        decreases j,
    {
        assert(v@.subrange(0, j as int).drop_last() =~= v@.subrange(0, j - 1));
        j = j - 1;
    }
    let t = crate::text::slice_chars(&v, 0, j);
    ProcEvent { kind: ProcEventKind::Line, text: text_of(t.as_slice()), returncode: None }
}

/// The decimal text of an integer, with a `-` when negative.
pub open spec fn int_text(n: int) -> Seq<char> {
    if n < 0 {
        seq!['-'] + nat_text((-n) as nat)
    } else {
        nat_text(n as nat)
    }
}

fn push_int(out: &mut Vec<char>, n: i32)
    ensures
        final(out)@ == old(out)@ + int_text(n as int),
{
    let ghost start = out@;
    if n < 0 {
        out.push('-');
        let m: u32 = if n == i32::MIN {
            2147483648u32
        } else {
            (-n) as u32
        };
        push_nat(out, m);
        assert(out@ =~= start + int_text(n as int));
    } else {
        push_nat(out, n as u32);
    }
}

/// The event that closes a child's stream: `exit <code>`, `-1` standing
/// for a code that could not be had.
pub fn exit_event(code: Option<i32>) -> (r: ProcEvent)
    ensures
        r.kind == ProcEventKind::Exit,
        r.returncode == code,
        r.text@ == "exit "@ + int_text(
            match code {
                Some(c) => c as int,
                None => -1,
            },
        ),
{
    let mut v = chars_of("exit ");
    match code {
        Some(c) => push_int(&mut v, c),
        None => push_int(&mut v, -1),
    }
    ProcEvent { kind: ProcEventKind::Exit, text: text_of(v.as_slice()), returncode: code }
}

/// The single event by which a start failure is reported: an exit with no
/// code.
pub fn spawn_failure_event(reason: &str) -> (r: ProcEvent)
    ensures
        r.kind == ProcEventKind::Exit,
        r.returncode is None,
        r.text@ == "exit -1 ("@ + reason@ + ")"@,
{
    let head = crate::text::concat("exit -1 (", reason);
    ProcEvent { kind: ProcEventKind::Exit, text: crate::text::concat(head.as_str(), ")"), returncode: None }
}

/// `<comspec> /d /s /c <command>`, `cmd.exe` standing for an unset
/// command processor.
pub fn windows_cmd_argv(comspec: Option<&str>, command: &str) -> (r: Vec<String>)
    ensures
        texts_of(r@) == seq![
            match comspec {
                Some(c) => c@,
                None => "cmd.exe"@,
            },
            "/d"@,
            "/s"@,
            "/c"@,
            command@,
        ],
{
    let mut v: Vec<String> = Vec::new();
    v.push(match comspec {
        Some(c) => owned(c),
        None => owned("cmd.exe"),
    });
    v.push(owned("/d"));
    v.push(owned("/s"));
    v.push(owned("/c"));
    v.push(owned(command));
    assert(texts_of(v@) =~= seq![
        match comspec {
            Some(c) => c@,
            None => "cmd.exe"@,
        },
        "/d"@,
        "/s"@,
        "/c"@,
        command@,
    ]);
    v
}

/// `<interpreter> <script>`, `python` standing for an unset interpreter.
pub fn python_run_argv(interpreter: Option<&str>, script: &str) -> (r: Vec<String>)
    ensures
        exists|w: bool|
            texts_of(r@) == seq![
                match interpreter {
                    Some(c) => c@,
                    None => "python"@,
                },
                cmd_path(script@, w),
            ],
{
    let w = is_windows();
    let mut v: Vec<String> = Vec::new();
    v.push(match interpreter {
        Some(c) => owned(c),
        None => owned("python"),
    });
    v.push(path_for_cmd(script, w));
    assert(texts_of(v@) =~= seq![
        match interpreter {
            Some(c) => c@,
            None => "python"@,
        },
        cmd_path(script@, w),
    ]);
    v
}

} // verus!
