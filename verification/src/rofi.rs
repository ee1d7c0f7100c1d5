//! Builder for the external selector's command line, and the classification
//! of its exit protocol: exit code 0 carries the selected line on standard
//! output, 1 is a cancellation, 10 through 28 encode a custom key, and any
//! other code is a protocol error.
use vstd::prelude::*;
use crate::text::{chars_to_string, dec_i32, spec_dec_int, string_to_chars};

verus! {

/// Spec-level model of a [`RofiWindow`].
pub struct RofiWindowV {
    pub prompt: Seq<char>,
    pub message: Option<Seq<char>>,
    pub width: Option<int>,
    pub lines: int,
    pub password: bool,
    pub extra_args: Seq<Seq<char>>,
}

/// The configuration of one selector invocation.
#[derive(Debug)]
pub struct RofiWindow {
    pub prompt: String,
    pub message: Option<String>,
    pub width: Option<i32>,
    pub lines: i32,
    pub password: bool,
    pub extra_args: Vec<String>,
}

impl View for RofiWindow {
    type V = RofiWindowV;

    open spec fn view(&self) -> RofiWindowV {
        RofiWindowV {
            prompt: self.prompt@,
            message: match self.message {
                Some(ref m) => Some(m@),
                None => None,
            },
            width: match self.width {
                Some(w) => Some(w as int),
                None => None,
            },
            lines: self.lines as int,
            password: self.password,
            extra_args: self.extra_args.deep_view(),
        }
    }
}

/// The outcome of one selector invocation.
#[derive(Debug)]
pub enum RofiResponse {
    Entry(String),
    Cancel,
    CustomKey(i32),
}

/// A selector protocol violation, described for diagnostics.
#[derive(Debug)]
pub struct RofiError {
    pub details: String,
}

/// The command-line arguments that a window configuration renders to.
pub open spec fn spec_to_args(w: RofiWindowV) -> Seq<Seq<char>> {
    seq!["-p"@, w.prompt] + (match w.message {
        Some(m) => seq!["-mesg"@, m],
        None => Seq::empty(),
    }) + (match w.width {
        Some(x) => seq!["-width"@, spec_dec_int(x)],
        None => Seq::empty(),
    }) + seq!["-lines"@, spec_dec_int(w.lines)] + (if w.password {
        seq!["-password"@]
    } else {
        Seq::<Seq<char>>::empty()
    }) + w.extra_args
}

impl RofiWindow {
    /// Renders this configuration as the selector's argument list.
    pub fn to_args(&self) -> (args: Vec<String>)
        ensures
            args.deep_view() == spec_to_args(self@),
    {
        let mut args: Vec<String> = Vec::new();
        args.push(String::from_str("-p"));
        args.push(self.prompt.clone());
        match &self.message {
            Some(msg) => {
                args.push(String::from_str("-mesg"));
                args.push(msg.clone());
            },
            None => {},
        }
        match self.width {
            Some(width) => {
                args.push(String::from_str("-width"));
                args.push(dec_i32(width));
            },
            None => {},
        }
        args.push(String::from_str("-lines"));
        args.push(dec_i32(self.lines));
        if self.password {
            args.push(String::from_str("-password"));
        }
        let n = self.extra_args.len();
        let ghost head = args.deep_view();
        proof {
            assert(head =~= spec_to_args(self@).take(head.len() as int));
            assert(spec_to_args(self@).len() == head.len() + n);
        }
        let mut i: usize = 0;
        while i < n
            invariant
                n == self.extra_args@.len(),
                i <= n,
                args.deep_view() =~= head + self.extra_args.deep_view().take(i as int),
            decreases n - i,
        {
            let x = self.extra_args[i].clone();
            let ghost xv = x.deep_view();
            proof {
                assert(xv == self.extra_args.deep_view()[i as int]);
            }
            args.push(x);
            proof {
                assert(args.deep_view() =~= head + self.extra_args.deep_view().take(i as int)
                    + seq![xv]);
                assert(head + self.extra_args.deep_view().take(i as int) + seq![xv] =~= head
                    + self.extra_args.deep_view().take(i as int + 1));
            }
            i += 1;
        }
        proof {
            assert(self.extra_args.deep_view().take(n as int) =~= self.extra_args.deep_view());
            assert(args.deep_view() =~= spec_to_args(self@));
        }
        args
    }

    /// A window with the given prompt and the default configuration.
    pub fn new(prompt: &str) -> (w: RofiWindow)
        ensures
            w@.prompt == prompt@,
            w@.message is None,
            w@.width is None,
            w@.lines == 10,
            w@.password == false,
            w@.extra_args == Seq::<Seq<char>>::empty(),
    {
        let w = RofiWindow {
            prompt: String::from_str(prompt),
            message: None,
            width: None,
            lines: 10,
            password: false,
            extra_args: Vec::new(),
        };
        proof {
            assert(w@.extra_args =~= Seq::<Seq<char>>::empty());
        }
        w
    }

    /// Replaces the prompt.
    pub fn prompt(self, prompt: &str) -> (w: RofiWindow)
        ensures
            w@ == (RofiWindowV { prompt: prompt@, ..self@ }),
    {
        RofiWindow { prompt: String::from_str(prompt), ..self }
    }

    /// Sets the message line.
    pub fn message(self, msg: &str) -> (w: RofiWindow)
        ensures
            w@ == (RofiWindowV { message: Some(msg@), ..self@ }),
    {
        RofiWindow { message: Some(String::from_str(msg)), ..self }
    }

    /// Sets the window width.
    pub fn width(self, width: i32) -> (w: RofiWindow)
        ensures
            w@ == (RofiWindowV { width: Some(width as int), ..self@ }),
    {
        RofiWindow { width: Some(width), ..self }
    }

    /// Sets the number of menu lines.
    pub fn lines(self, lines: i32) -> (w: RofiWindow)
        ensures
            w@ == (RofiWindowV { lines: lines as int, ..self@ }),
    {
        RofiWindow { lines, ..self }
    }

    /// Switches password masking on or off.
    pub fn password(self, password: bool) -> (w: RofiWindow)
        ensures
            w@ == (RofiWindowV { password, ..self@ }),
    {
        RofiWindow { password, ..self }
    }

    /// Appends raw extra arguments.
    pub fn add_args(self, args: Vec<&str>) -> (w: RofiWindow)
        ensures
            w@ == (RofiWindowV { extra_args: self@.extra_args + args.deep_view(), ..self@ }),
    {
        let mut extra_args = self.extra_args;
        let ghost head = extra_args.deep_view();
        let n = args.len();
        let mut i: usize = 0;
        while i < n
            invariant
                n == args@.len(),
                i <= n,
                extra_args.deep_view() =~= head + args.deep_view().take(i as int),
            decreases n - i,
        {
            let x = String::from_str(args[i]);
            let ghost xv = x.deep_view();
            proof {
                assert(xv == args.deep_view()[i as int]);
            }
            extra_args.push(x);
            proof {
                assert(extra_args.deep_view() =~= head + args.deep_view().take(i as int)
                    + seq![xv]);
                assert(head + args.deep_view().take(i as int) + seq![xv] =~= head
                    + args.deep_view().take(i as int + 1));
            }
            i += 1;
        }
        proof {
            assert(args.deep_view().take(n as int) =~= args.deep_view());
        }
        let w = RofiWindow { extra_args, ..self };
        proof {
            assert(w@.extra_args =~= head + args.deep_view());
        }
        w
    }

    /// Binds custom key number `idx` to `key`.
    pub fn kb_custom(self, idx: i32, key: &str) -> (w: RofiWindow)
        ensures
            w@ == (RofiWindowV {
                extra_args: self@.extra_args + seq!["-kb-custom-"@ + spec_dec_int(idx as int), key@],
                ..self@
            }),
    {
        let mut extra_args = self.extra_args;
        let ghost head = extra_args.deep_view();
        let arg = String::from_str("-kb-custom-").concat(dec_i32(idx).as_str());
        extra_args.push(arg);
        extra_args.push(String::from_str(key));
        let w = RofiWindow { extra_args, ..self };
        proof {
            assert(w@.extra_args =~= head + seq![
                "-kb-custom-"@ + spec_dec_int(idx as int),
                key@,
            ]);
        }
        w
    }

    /// Selects the matching algorithm.
    pub fn matching(self, algo: &str) -> (w: RofiWindow)
        ensures
            w@ == (RofiWindowV {
                extra_args: self@.extra_args + seq!["-matching"@, algo@],
                ..self@
            }),
    {
        let mut extra_args = self.extra_args;
        let ghost head = extra_args.deep_view();
        extra_args.push(String::from_str("-matching"));
        extra_args.push(String::from_str(algo));
        let w = RofiWindow { extra_args, ..self };
        proof {
            assert(w@.extra_args =~= head + seq!["-matching"@, algo@]);
        }
        w
    }
}

/// The characters Rust's `str::trim` removes: those with the Unicode
/// `White_Space` property.
pub open spec fn spec_is_ws(c: char) -> bool {
    c == ' ' || c == '\t' || c == '\n' || c == '\r' || c == '\u{0B}' || c == '\u{0C}' || c
        == '\u{85}' || c == '\u{A0}' || c == '\u{1680}' || ('\u{2000}' <= c && c <= '\u{200A}') || c
        == '\u{2028}' || c == '\u{2029}' || c == '\u{202F}' || c == '\u{205F}' || c == '\u{3000}'
}

/// `s` with leading whitespace removed.
pub open spec fn spec_trim_start(s: Seq<char>) -> Seq<char>
    decreases s.len(),
{
    if s.len() > 0 && spec_is_ws(s[0]) {
        spec_trim_start(s.drop_first())
    } else {
        s
    }
}

/// `s` with trailing whitespace removed.
pub open spec fn spec_trim_end(s: Seq<char>) -> Seq<char>
    decreases s.len(),
{
    if s.len() > 0 && spec_is_ws(s.last()) {
        spec_trim_end(s.drop_last())
    } else {
        s
    }
}

/// `s` with whitespace removed from both ends.
pub open spec fn spec_trim(s: Seq<char>) -> Seq<char> {
    spec_trim_end(spec_trim_start(s))
}

fn is_ws(c: char) -> (r: bool)
    ensures
        r == spec_is_ws(c),
{
    c == ' ' || c == '\t' || c == '\n' || c == '\r' || c == '\u{0B}' || c == '\u{0C}' || c
        == '\u{85}' || c == '\u{A0}' || c == '\u{1680}' || ('\u{2000}' <= c && c <= '\u{200A}') || c
        == '\u{2028}' || c == '\u{2029}' || c == '\u{202F}' || c == '\u{205F}' || c == '\u{3000}'
}

/// Removes whitespace from both ends of `s`.
pub fn trim_str(s: &str) -> (r: String)
    ensures
        r@ == spec_trim(s@),
{
    let chars = string_to_chars(s);
    let mut lo: usize = 0;
    let n = chars.len();
    proof {
        assert(s@.subrange(0, n as int) =~= s@);
    }
    while lo < n && is_ws(chars[lo])
        invariant
            n == chars@.len(),
            lo <= n,
            chars@ == s@,
            spec_trim_start(s@) == spec_trim_start(s@.subrange(lo as int, n as int)),
        decreases n - lo,
    {
        proof {
            assert(s@.subrange(lo as int, n as int).drop_first() =~= s@.subrange(
                lo + 1 as int,
                n as int,
            ));
        }
        lo += 1;
    }
    proof {
        let tail = s@.subrange(lo as int, n as int);
        if lo < n {
            assert(!spec_is_ws(tail[0]));
        }
        assert(spec_trim_start(s@) == tail);
    }
    let mut hi: usize = n;
    while hi > lo && is_ws(chars[hi - 1])
        invariant
            n == chars@.len(),
            lo <= hi <= n,
            chars@ == s@,
            spec_trim_start(s@) == s@.subrange(lo as int, n as int),
            spec_trim_end(s@.subrange(lo as int, n as int)) == spec_trim_end(
                s@.subrange(lo as int, hi as int),
            ),
        decreases hi,
    {
        proof {
            assert(s@.subrange(lo as int, hi as int).drop_last() =~= s@.subrange(
                lo as int,
                hi - 1 as int,
            ));
        }
        hi -= 1;
    }
    proof {
        let mid = s@.subrange(lo as int, hi as int);
        if hi > lo {
            assert(!spec_is_ws(mid.last()));
        }
        assert(spec_trim(s@) == mid);
    }
    let mut out: Vec<char> = Vec::new();
    let mut i: usize = lo;
    while i < hi
        invariant
            lo <= i <= hi <= n,
            n == chars@.len(),
            chars@ == s@,
            out@ =~= s@.subrange(lo as int, i as int),
        decreases hi - i,
    {
        out.push(chars[i]);
        proof {
            assert(out@ =~= s@.subrange(lo as int, i + 1 as int));
        }
        i += 1;
    }
    chars_to_string(out)
}

/// What the selector's exit status and captured standard output mean: the
/// selected line (trimmed) on success, a cancellation on exit code 1, the
/// custom key number for codes 10 through 28, and otherwise an error.
pub open spec fn spec_classify_exit(code: Option<int>, out: Seq<char>) -> Result<
    RofiResponseV,
    Seq<char>,
> {
    match code {
        Some(c) => if 10 <= c && c <= 28 {
            Ok(RofiResponseV::CustomKey(c - 9))
        } else if c == 1 {
            Ok(RofiResponseV::Cancel)
        } else if c != 0 {
            Err("unexpected exit code: "@ + spec_dec_int(c))
        } else {
            Ok(RofiResponseV::Entry(spec_trim(out)))
        },
        None => Ok(RofiResponseV::Entry(spec_trim(out))),
    }
}

/// Spec-level model of a [`RofiResponse`].
pub enum RofiResponseV {
    Entry(Seq<char>),
    Cancel,
    CustomKey(int),
}

impl View for RofiResponse {
    type V = RofiResponseV;

    open spec fn view(&self) -> RofiResponseV {
        match self {
            RofiResponse::Entry(s) => RofiResponseV::Entry(s@),
            RofiResponse::Cancel => RofiResponseV::Cancel,
            RofiResponse::CustomKey(k) => RofiResponseV::CustomKey(*k as int),
        }
    }
}

/// Classifies one selector invocation from its exit code and standard
/// output text.
pub fn classify_exit(code: Option<i32>, out: &str) -> (r: Result<RofiResponse, RofiError>)
    ensures
        match r {
            Ok(resp) => spec_classify_exit(
                match code {
                    Some(c) => Some(c as int),
                    None => None,
                },
                out@,
            ) == Ok::<RofiResponseV, Seq<char>>(resp@),
            Err(e) => spec_classify_exit(
                match code {
                    Some(c) => Some(c as int),
                    None => None,
                },
                out@,
            ) == Err::<RofiResponseV, Seq<char>>(e.details@),
        },
{
    match code {
        Some(c) => {
            if 10 <= c && c <= 28 {
                Ok(RofiResponse::CustomKey(c - 9))
            } else if c == 1 {
                Ok(RofiResponse::Cancel)
            } else if c != 0 {
                let details = String::from_str("unexpected exit code: ").concat(
                    dec_i32(c).as_str(),
                );
                Err(RofiError { details })
            } else {
                Ok(RofiResponse::Entry(trim_str(out)))
            }
        },
        None => Ok(RofiResponse::Entry(trim_str(out))),
    }
}

impl RofiResponse {
    /// The selected entry, or an error when the response is not a
    /// selection.
    pub fn entry(&self) -> (r: Result<String, RofiError>)
        ensures
            match r {
                Ok(s) => self@ matches RofiResponseV::Entry(e) && e == s@,
                Err(e) => !(self@ is Entry) && e.details@ == "expected an entry as response"@,
            },
    {
        match self {
            RofiResponse::Entry(s) => Ok(s.clone()),
            _ => Err(RofiError { details: String::from_str("expected an entry as response") }),
        }
    }
}

impl RofiError {
    /// The diagnostic text of this error.
    pub fn describe(&self) -> (r: String)
        ensures
            r@ == self.details@,
    {
        self.details.clone()
    }
}

} // verus!
