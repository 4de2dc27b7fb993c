//! The shell tokenizer and parser: one input line is split into words,
//! honoring double/single quoting, backslash escaping, and `;` as a hard
//! statement separator; the word sequence is then parsed into leading
//! `KEY=VALUE` assignments, a command, and its arguments.

use vstd::prelude::*;

use crate::helpers::{first_match, SplitOnceOwned};

verus! {

/// The characters the tokenizer treats as word-separating whitespace.
pub open spec fn is_shell_space(c: char) -> bool {
    let u = c as u32;
    (9 <= u && u <= 13) || u == 32 || u == 0x85 || u == 0xA0 || u == 0x1680 || (0x2000 <= u && u
        <= 0x200A) || u == 0x2028 || u == 0x2029 || u == 0x202F || u == 0x205F || u == 0x3000
}

/// Decides whether a character is word-separating whitespace.
pub fn is_space_char(c: char) -> (r: bool)
    ensures
        r == is_shell_space(c),
{
    let u = c as u32;
    (9 <= u && u <= 13) || u == 32 || u == 0x85 || u == 0xA0 || u == 0x1680 || (0x2000 <= u && u
        <= 0x200A) || u == 0x2028 || u == 0x2029 || u == 0x202F || u == 0x205F || u == 0x3000
}

/// `s` without its leading whitespace.
pub open spec fn trim_leading(s: Seq<char>) -> Seq<char>
    decreases s.len(),
{
    if s.len() == 0 {
        s
    } else if is_shell_space(s[0]) {
        trim_leading(s.drop_first())
    } else {
        s
    }
}

/// `s` without its trailing whitespace.
pub open spec fn trim_trailing(s: Seq<char>) -> Seq<char>
    decreases s.len(),
{
    if s.len() == 0 {
        s
    } else if is_shell_space(s.last()) {
        trim_trailing(s.drop_last())
    } else {
        s
    }
}

/// `s` without leading and trailing whitespace.
pub open spec fn trim(s: Seq<char>) -> Seq<char> {
    trim_trailing(trim_leading(s))
}

proof fn lemma_trim_leading_to(s: Seq<char>, a: int)
    requires
        0 <= a <= s.len(),
        forall|j: int| 0 <= j < a ==> is_shell_space(s[j]),
        a == s.len() || !is_shell_space(s[a]),
    ensures
        trim_leading(s) == s.skip(a),
    decreases a,
{
    if a == 0 {
        assert(s.skip(0) =~= s);
    } else {
        lemma_trim_leading_to(s.drop_first(), a - 1);
        assert(s.drop_first().skip(a - 1) =~= s.skip(a));
    }
}

proof fn lemma_trim_trailing_to(s: Seq<char>, b: int)
    requires
        0 <= b <= s.len(),
        forall|j: int| b <= j < s.len() ==> is_shell_space(s[j]),
        b == 0 || !is_shell_space(s[b - 1]),
    ensures
        trim_trailing(s) == s.take(b),
    decreases s.len() - b,
{
    if b == s.len() {
        assert(s.take(b) =~= s);
    } else {
        lemma_trim_trailing_to(s.drop_last(), b);
        assert(s.drop_last().take(b) =~= s.take(b));
    }
}

proof fn lemma_trim_leading_props(s: Seq<char>)
    ensures
        trim_leading(s).len() <= s.len(),
        trim_leading(s).len() > 0 ==> !is_shell_space(trim_leading(s)[0]),
    decreases s.len(),
{
    if s.len() > 0 && is_shell_space(s[0]) {
        lemma_trim_leading_props(s.drop_first());
    }
}

proof fn lemma_trim_trailing_props(s: Seq<char>)
    ensures
        trim_trailing(s).len() <= s.len(),
        trim_trailing(s).len() > 0 ==> !is_shell_space(trim_trailing(s).last()),
        trim_trailing(s).len() > 0 ==> s.len() > 0 && trim_trailing(s)[0] == s[0],
    decreases s.len(),
{
    if s.len() > 0 && is_shell_space(s.last()) {
        lemma_trim_trailing_props(s.drop_last());
    }
}

/// A trimmed line is no longer than the original and starts and ends with
/// non-whitespace.
pub proof fn lemma_trim_props(s: Seq<char>)
    ensures
        trim(s).len() <= s.len(),
        trim(s).len() > 0 ==> !is_shell_space(trim(s)[0]),
        trim(s).len() > 0 ==> !is_shell_space(trim(s).last()),
{
    lemma_trim_leading_props(s);
    lemma_trim_trailing_props(trim_leading(s));
}

/// A line that neither starts nor ends with whitespace trims to itself.
pub proof fn lemma_trim_id(s: Seq<char>)
    requires
        s.len() > 0 ==> !is_shell_space(s[0]),
        s.len() > 0 ==> !is_shell_space(s.last()),
    ensures
        trim(s) == s,
{
    assert(trim_leading(s) == s);
    assert(trim_trailing(s) == s);
}

/// The scanning states of the tokenizer's finite-state machine.
#[derive(Clone, Copy, PartialEq, Eq, Structural)]
pub enum ScanState {
    Normal,
    Escape,
    DoubleQuoted,
    EscapedInDouble,
    SingleQuoted,
    EscapedInSingle,
}

/// One scanning pass over the trimmed line `s` from position `i` in state
/// `st` with the processed content `buf` accumulated so far; yields the next
/// token's content and the unscanned remainder of the line.
pub open spec fn scan(s: Seq<char>, i: int, st: ScanState, buf: Seq<char>) -> (Seq<char>, Seq<
    char,
>)
    decreases s.len() - i,
    when 0 <= i <= s.len()
{
    if i == s.len() {
        (buf, Seq::empty())
    } else {
        let c = s[i];
        match st {
            ScanState::Normal => {
                if is_shell_space(c) {
                    (buf, s.skip(i))
                } else if c == '\\' {
                    scan(s, i + 1, ScanState::Escape, buf)
                } else if c == '"' {
                    scan(s, i + 1, ScanState::DoubleQuoted, buf)
                } else if c == '\'' {
                    scan(s, i + 1, ScanState::SingleQuoted, buf)
                } else if c == ';' {
                    if i == 0 {
                        (seq![';'], s.skip(1))
                    } else {
                        (buf, s.skip(i))
                    }
                } else {
                    scan(s, i + 1, ScanState::Normal, buf.push(c))
                }
            },
            ScanState::Escape => scan(s, i + 1, ScanState::Normal, buf.push(c)),
            ScanState::DoubleQuoted => {
                if c == '"' {
                    scan(s, i + 1, ScanState::Normal, buf)
                } else if c == '\\' {
                    scan(s, i + 1, ScanState::EscapedInDouble, buf)
                } else {
                    scan(s, i + 1, ScanState::DoubleQuoted, buf.push(c))
                }
            },
            ScanState::EscapedInDouble => scan(s, i + 1, ScanState::DoubleQuoted, buf.push(c)),
            ScanState::SingleQuoted => {
                if c == '\'' {
                    scan(s, i + 1, ScanState::Normal, buf)
                } else if c == '\\' {
                    scan(s, i + 1, ScanState::EscapedInSingle, buf)
                } else {
                    scan(s, i + 1, ScanState::SingleQuoted, buf.push(c))
                }
            },
            ScanState::EscapedInSingle => scan(s, i + 1, ScanState::SingleQuoted, buf.push(c)),
        }
    }
}

/// The next token of the line `s` and the remainder to scan afterwards, or
/// `None` when only whitespace is left. Tokenizing never fails: any leftover
/// input, even an unterminated quote, still yields a token.
pub open spec fn next_token(s: Seq<char>) -> Option<(Seq<char>, Seq<char>)> {
    let t = trim(s);
    if t.len() == 0 {
        None
    } else {
        Some(scan(t, 0, ScanState::Normal, Seq::empty()))
    }
}

/// Scanning a nonempty trimmed line consumes at least one character.
pub proof fn lemma_scan_rest(s: Seq<char>, i: int, st: ScanState, buf: Seq<char>)
    requires
        0 <= i <= s.len(),
        s.len() > 0,
        !is_shell_space(s[0]),
    ensures
        scan(s, i, st, buf).1.len() < s.len(),
    decreases s.len() - i,
{
    if i == s.len() {
    } else {
        let c = s[i];
        match st {
            ScanState::Normal => {
                if is_shell_space(c) {
                    assert(i != 0);
                } else if c == '\\' {
                    lemma_scan_rest(s, i + 1, ScanState::Escape, buf);
                } else if c == '"' {
                    lemma_scan_rest(s, i + 1, ScanState::DoubleQuoted, buf);
                } else if c == '\'' {
                    lemma_scan_rest(s, i + 1, ScanState::SingleQuoted, buf);
                } else if c == ';' {
                } else {
                    lemma_scan_rest(s, i + 1, ScanState::Normal, buf.push(c));
                }
            },
            ScanState::Escape => lemma_scan_rest(s, i + 1, ScanState::Normal, buf.push(c)),
            ScanState::DoubleQuoted => {
                if c == '"' {
                    lemma_scan_rest(s, i + 1, ScanState::Normal, buf);
                } else if c == '\\' {
                    lemma_scan_rest(s, i + 1, ScanState::EscapedInDouble, buf);
                } else {
                    lemma_scan_rest(s, i + 1, ScanState::DoubleQuoted, buf.push(c));
                }
            },
            ScanState::EscapedInDouble => lemma_scan_rest(
                s,
                i + 1,
                ScanState::DoubleQuoted,
                buf.push(c),
            ),
            ScanState::SingleQuoted => {
                if c == '\'' {
                    lemma_scan_rest(s, i + 1, ScanState::Normal, buf);
                } else if c == '\\' {
                    lemma_scan_rest(s, i + 1, ScanState::EscapedInSingle, buf);
                } else {
                    lemma_scan_rest(s, i + 1, ScanState::SingleQuoted, buf.push(c));
                }
            },
            ScanState::EscapedInSingle => lemma_scan_rest(
                s,
                i + 1,
                ScanState::SingleQuoted,
                buf.push(c),
            ),
        }
    }
}

/// All tokens of the line `s`, in order.
pub open spec fn tokens(s: Seq<char>) -> Seq<Seq<char>>
    decreases s.len(),
    via tokens_decreases
{
    match next_token(s) {
        None => Seq::empty(),
        Some(tr) => seq![tr.0] + tokens(tr.1),
    }
}

#[via_fn]
proof fn tokens_decreases(s: Seq<char>) {
    if next_token(s) is Some {
        lemma_trim_props(s);
        lemma_scan_rest(trim(s), 0, ScanState::Normal, Seq::empty());
    }
}

/// Relies on String::push: appends the given character to the end of the
/// string.
#[verifier::external_body]
fn push_char(s: &mut String, c: char)
    ensures
        final(s)@ == old(s)@.push(c),
{
    s.push(c);
}

/// Trims leading and trailing whitespace off a line.
fn trim_str(s: &str) -> (t: String)
    ensures
        t@ == trim(s@),
{
    let n = s.unicode_len();
    let mut a: usize = 0;
    loop
        invariant
            0 <= a <= n,
            n == s@.len(),
            forall|j: int| 0 <= j < a ==> is_shell_space(s@[j]),
        ensures
            0 <= a <= n,
            n == s@.len(),
            forall|j: int| 0 <= j < a ==> is_shell_space(s@[j]),
            a == n || !is_shell_space(s@[a as int]),
        decreases n - a,
    {
        if a == n {
            break ;
        }
        if !is_space_char(s.get_char(a)) {
            break ;
        }
        a = a + 1;
    }
    let mut b: usize = n;
    loop
        invariant
            a <= b <= n,
            n == s@.len(),
            forall|j: int| 0 <= j < a ==> is_shell_space(s@[j]),
            a == n || !is_shell_space(s@[a as int]),
            forall|j: int| b <= j < n ==> is_shell_space(s@[j]),
        ensures
            a <= b <= n,
            forall|j: int| b <= j < n ==> is_shell_space(s@[j]),
            b == a || !is_shell_space(s@[b - 1]),
        decreases b,
    {
        if b == a {
            break ;
        }
        if !is_space_char(s.get_char(b - 1)) {
            break ;
        }
        proof {
            if b - 1 == a {
                assert(false);
            }
        }
        b = b - 1;
    }
    let t = s.substring_char(a, b).to_owned();
    proof {
        lemma_trim_leading_to(s@, a as int);
        let u = s@.skip(a as int);
        assert(forall|j: int| b - a <= j < u.len() ==> is_shell_space(u[j]));
        if b > a {
            assert(!is_shell_space(u[b - a - 1]));
        }
        lemma_trim_trailing_to(u, b - a);
        assert(u.take(b - a) =~= s@.subrange(a as int, b as int));
    }
    t
}

/// A tokenizer over one input line; each call of `next` yields the next
/// shell word.
pub struct SplitShell {
    rest: String,
}

impl View for SplitShell {
    type V = Seq<char>;

    closed spec fn view(&self) -> Seq<char> {
        self.rest@
    }
}

/// Starts tokenizing the line `x`.
pub fn split_shell(x: &str) -> (r: SplitShell)
    ensures
        r@ == x@,
{
    SplitShell { rest: x.to_owned() }
}

impl SplitShell {
    /// Yields the next token of the line, or `None` when only whitespace is
    /// left.
    pub fn next(&mut self) -> (r: Option<String>)
        ensures
            match next_token(old(self)@) {
                None => r is None && final(self)@ == Seq::<char>::empty(),
                Some(tr) => r matches Some(tok) && tok@ == tr.0 && final(self)@ == tr.1,
            },
    {
        let t = trim_str(self.rest.as_str());
        let n = t.as_str().unicode_len();
        if n == 0 {
            proof {
                assert(t@ =~= Seq::<char>::empty());
            }
            self.rest = t;
            return None;
        }
        let ghost tv = t@;
        let ghost target = scan(tv, 0, ScanState::Normal, Seq::<char>::empty());
        let mut buf = String::new();
        let mut st = ScanState::Normal;
        let mut i: usize = 0;
        while i < n
            invariant
                0 <= i <= n,
                n == tv.len(),
                n > 0,
                t@ == tv,
                tv == trim(old(self)@),
                target == scan(tv, 0, ScanState::Normal, Seq::<char>::empty()),
                scan(tv, i as int, st, buf@) == target,
            decreases n - i,
        {
            let c = t.as_str().get_char(i);
            match st {
                ScanState::Normal => {
                    if is_space_char(c) {
                        let rest = t.as_str().substring_char(i, n).to_owned();
                        proof {
                            assert(tv.subrange(i as int, n as int) =~= tv.skip(i as int));
                        }
                        self.rest = rest;
                        return Some(buf);
                    } else if c == '\\' {
                        st = ScanState::Escape;
                        i = i + 1;
                    } else if c == '"' {
                        st = ScanState::DoubleQuoted;
                        i = i + 1;
                    } else if c == '\'' {
                        st = ScanState::SingleQuoted;
                        i = i + 1;
                    } else if c == ';' {
                        if i == 0 {
                            let rest = t.as_str().substring_char(1, n).to_owned();
                            proof {
                                assert(tv.subrange(1, n as int) =~= tv.skip(1));
                            }
                            self.rest = rest;
                            let mut semi = String::new();
                            push_char(&mut semi, ';');
                            proof {
                                assert(semi@ =~= seq![';']);
                            }
                            return Some(semi);
                        } else {
                            let rest = t.as_str().substring_char(i, n).to_owned();
                            proof {
                                assert(tv.subrange(i as int, n as int) =~= tv.skip(i as int));
                            }
                            self.rest = rest;
                            return Some(buf);
                        }
                    } else {
                        push_char(&mut buf, c);
                        i = i + 1;
                    }
                },
                ScanState::Escape => {
                    push_char(&mut buf, c);
                    st = ScanState::Normal;
                    i = i + 1;
                },
                ScanState::DoubleQuoted => {
                    if c == '"' {
                        st = ScanState::Normal;
                        i = i + 1;
                    } else if c == '\\' {
                        st = ScanState::EscapedInDouble;
                        i = i + 1;
                    } else {
                        push_char(&mut buf, c);
                        i = i + 1;
                    }
                },
                ScanState::EscapedInDouble => {
                    push_char(&mut buf, c);
                    st = ScanState::DoubleQuoted;
                    i = i + 1;
                },
                ScanState::SingleQuoted => {
                    if c == '\'' {
                        st = ScanState::Normal;
                        i = i + 1;
                    } else if c == '\\' {
                        st = ScanState::EscapedInSingle;
                        i = i + 1;
                    } else {
                        push_char(&mut buf, c);
                        i = i + 1;
                    }
                },
                ScanState::EscapedInSingle => {
                    push_char(&mut buf, c);
                    st = ScanState::SingleQuoted;
                    i = i + 1;
                },
            }
        }
        self.rest = String::new();
        Some(buf)
    }
}


/// One `KEY=VALUE` environment assignment peeled off the front of a line.
pub struct EnvVar {
    pub key: String,
    pub val: String,
}

/// A parsed input line: leading environment assignments, the command (if
/// any), and its arguments. Arguments only ever accompany a command.
pub struct ShellLine {
    pub env: Vec<EnvVar>,
    pub command: Option<String>,
    pub args: Vec<String>,
}

/// Splits a token into key and value at its first `=`, if it has one.
pub open spec fn eq_split(t: Seq<char>) -> Option<(Seq<char>, Seq<char>)> {
    match first_match(t, seq!['=']) {
        None => None,
        Some(i) => Some((t.take(i), t.skip(i + 1))),
    }
}

/// The parse of a token sequence: each leading token that splits on `=`
/// becomes an assignment; the first token that does not becomes the command,
/// and everything after it an argument, whatever it contains.
pub open spec fn parse_line(toks: Seq<Seq<char>>) -> (Seq<(Seq<char>, Seq<char>)>, Option<
    Seq<char>,
>, Seq<Seq<char>>)
    decreases toks.len(),
{
    if toks.len() == 0 {
        (Seq::empty(), None, Seq::empty())
    } else {
        match eq_split(toks[0]) {
            Some(kv) => {
                let r = parse_line(toks.drop_first());
                (seq![kv] + r.0, r.1, r.2)
            },
            None => (Seq::empty(), Some(toks[0]), toks.drop_first()),
        }
    }
}

/// The key/value contents of a sequence of environment assignments.
pub open spec fn env_views(env: Seq<EnvVar>) -> Seq<(Seq<char>, Seq<char>)> {
    env.map_values(|e: EnvVar| (e.key@, e.val@))
}

/// A line without a command has neither assignments consumed as arguments
/// nor arguments at all.
pub proof fn lemma_no_command_no_args(toks: Seq<Seq<char>>)
    requires
        parse_line(toks).1 is None,
    ensures
        parse_line(toks).2 =~= Seq::<Seq<char>>::empty(),
    decreases toks.len(),
{
    if toks.len() > 0 {
        match eq_split(toks[0]) {
            Some(kv) => {
                lemma_no_command_no_args(toks.drop_first());
            },
            None => {},
        }
    }
}

/// Consumes a tokenizer and builds the structured line it describes.
pub fn parse_shell(iter: SplitShell) -> (line: ShellLine)
    ensures
        ({
            let m = parse_line(tokens(iter@));
            &&& env_views(line.env@) == m.0
            &&& match m.1 {
                None => line.command is None,
                Some(c) => line.command matches Some(cmd) && cmd@ == c,
            }
            &&& line.args.deep_view() == m.2
        }),
        line.command is None ==> line.args@.len() == 0,
{
    let ghost all = tokens(iter@);
    let mut it = iter;
    let mut toks: Vec<String> = Vec::new();
    loop
        invariant
            all == toks.deep_view() + tokens(it@),
        ensures
            toks.deep_view() == all,
        decreases tokens(it@).len(),
    {
        let ghost before = it@;
        match it.next() {
            Some(tok) => {
                proof {
                    let tr = next_token(before)->Some_0;
                    assert(tokens(before) == seq![tr.0] + tokens(tr.1));
                }
                let ghost dv_old = toks.deep_view();
                toks.push(tok);
                proof {
                    assert(toks.deep_view() =~= dv_old.push(tok@));
                    assert(dv_old.push(tok@) + tokens(it@) =~= dv_old + (seq![tok@] + tokens(
                        it@,
                    )));
                }
            },
            None => {
                proof {
                    assert(tokens(before) =~= Seq::<Seq<char>>::empty());
                    assert(tokens(it@) =~= Seq::<Seq<char>>::empty());
                    assert(toks.deep_view() + tokens(it@) =~= toks.deep_view());
                }
                break ;
            },
        }
    }
    let ghost dv = toks.deep_view();
    let n = toks.len();
    proof {
        assert(dv.len() == n);
    }
    let mut env: Vec<EnvVar> = Vec::new();
    let mut command: Option<String> = None;
    let mut args: Vec<String> = Vec::new();
    let mut k: usize = 0;
    proof {
        assert(dv.skip(0) =~= dv);
        assert(env_views(env@) =~= Seq::<(Seq<char>, Seq<char>)>::empty());
        assert(env_views(env@) + parse_line(dv).0 =~= parse_line(dv).0);
    }
    while k < n
        invariant
            0 <= k <= n,
            n == toks.len(),
            dv == toks.deep_view(),
            dv.len() == n,
            command is None ==> args@.len() == 0 && parse_line(dv).0 == env_views(env@)
                + parse_line(dv.skip(k as int)).0 && parse_line(dv).1 == parse_line(
                dv.skip(k as int),
            ).1 && parse_line(dv).2 == parse_line(dv.skip(k as int)).2,
            command matches Some(c) ==> parse_line(dv).0 == env_views(env@) && parse_line(dv).1
                == Some(c@) && parse_line(dv).2 == args.deep_view() + dv.skip(k as int),
        decreases n - k,
    {
        proof {
            assert(dv.skip(k as int).len() > 0);
            assert(dv.skip(k as int)[0] == dv[k as int]);
            assert(dv[k as int] == toks@[k as int]@);
            assert(dv.skip(k as int).drop_first() =~= dv.skip(k as int + 1));
        }
        let tk = toks[k].clone();
        if command.is_none() {
            proof {
                reveal_strlit("=");
                assert("="@ =~= seq!['=']);
            }
            match tk.split_once_owned("=") {
                Ok(pair) => {
                    let ghost ev_old = env_views(env@);
                    let ghost kv = eq_split(dv[k as int])->Some_0;
                    proof {
                        assert(kv == (pair.0@, pair.1@));
                        assert(parse_line(dv.skip(k as int)).0 == seq![kv] + parse_line(
                            dv.skip(k as int + 1),
                        ).0);
                    }
                    env.push(EnvVar { key: pair.0, val: pair.1 });
                    proof {
                        assert(env_views(env@) =~= ev_old + seq![kv]);
                        assert(ev_old + (seq![kv] + parse_line(dv.skip(k as int + 1)).0) =~= (
                        ev_old + seq![kv]) + parse_line(dv.skip(k as int + 1)).0);
                    }
                },
                Err(orig) => {
                    proof {
                        assert(eq_split(dv[k as int]) is None);
                        assert(parse_line(dv.skip(k as int)).1 == Some(dv[k as int]));
                        assert(parse_line(dv.skip(k as int)).2 == dv.skip(k as int).drop_first());
                        assert(env_views(env@) + Seq::<(Seq<char>, Seq<char>)>::empty() =~=
                        env_views(env@));
                        assert(args.deep_view() + dv.skip(k as int + 1) =~= dv.skip(k as int + 1));
                    }
                    command = Some(orig);
                },
            }
        } else {
            let ghost av_old = args.deep_view();
            args.push(tk);
            proof {
                assert(args.deep_view() =~= av_old.push(dv[k as int]));
                assert(av_old.push(dv[k as int]) + dv.skip(k as int + 1) =~= av_old + dv.skip(
                    k as int,
                ));
            }
        }
        k = k + 1;
    }
    proof {
        assert(dv.skip(n as int) =~= Seq::<Seq<char>>::empty());
        if command is None {
            assert(parse_line(dv).0 == env_views(env@) + parse_line(dv.skip(n as int)).0);
            assert(env_views(env@) + Seq::<(Seq<char>, Seq<char>)>::empty() =~= env_views(env@));
            assert(args.deep_view() =~= Seq::<Seq<char>>::empty());
        } else {
            assert(args.deep_view() + Seq::<Seq<char>>::empty() =~= args.deep_view());
        }
    }
    ShellLine { env, command, args }
}


/// A character with no special meaning to the tokenizer in its normal
/// state.
pub open spec fn is_plain(c: char) -> bool {
    !is_shell_space(c) && c != '\\' && c != '"' && c != '\'' && c != ';'
}

proof fn lemma_scan_plain(t: Seq<char>, i: int, k: int, buf: Seq<char>)
    requires
        0 <= i <= k <= t.len(),
        forall|j: int| i <= j < k ==> is_plain(t[j]),
    ensures
        scan(t, i, ScanState::Normal, buf) == scan(t, k, ScanState::Normal, buf + t.subrange(i, k)),
    decreases k - i,
{
    if i == k {
        assert(buf + t.subrange(i, i) =~= buf);
    } else {
        assert(is_plain(t[i]));
        lemma_scan_plain(t, i + 1, k, buf.push(t[i]));
        assert(buf.push(t[i]) + t.subrange(i + 1, k) =~= buf + t.subrange(i, k));
    }
}

proof fn lemma_scan_in_quote(t: Seq<char>, i: int, buf: Seq<char>, qc: char)
    requires
        qc == '"' || qc == '\'',
        0 <= i <= t.len(),
        forall|j: int| i <= j < t.len() ==> t[j] != qc && t[j] != '\\',
    ensures
        scan(
            t,
            i,
            if qc == '"' {
                ScanState::DoubleQuoted
            } else {
                ScanState::SingleQuoted
            },
            buf,
        ) == (buf + t.skip(i), Seq::<char>::empty()),
    decreases t.len() - i,
{
    if i == t.len() {
        assert(buf + t.skip(i) =~= buf);
    } else {
        lemma_scan_in_quote(t, i + 1, buf.push(t[i]), qc);
        assert(buf.push(t[i]) + t.skip(i + 1) =~= buf + t.skip(i));
    }
}

/// Tokenizing cannot fail: whenever non-whitespace remains, a next token
/// exists, and only an all-whitespace remainder ends the sequence.
pub proof fn lemma_tokenizer_total(s: Seq<char>)
    ensures
        trim(s).len() > 0 <==> next_token(s) is Some,
{
}

/// An unterminated quote at the end of a trimmed line is not an error: the
/// final token holds everything after the opening quote, processed
/// literally, and nothing is left to scan.
pub proof fn lemma_unterminated_quote(t: Seq<char>, qc: char)
    requires
        trim(t) == t,
        t.len() >= 1,
        qc == '"' || qc == '\'',
        t[0] == qc,
        forall|j: int| 1 <= j < t.len() ==> t[j] != qc && t[j] != '\\',
    ensures
        next_token(t) == Some((t.skip(1), Seq::<char>::empty())),
{
    lemma_scan_in_quote(t, 1, Seq::<char>::empty(), qc);
    assert(Seq::<char>::empty() + t.skip(1) =~= t.skip(1));
}

/// A `;` at the start of the remaining line is emitted as the
/// one-character token `";"`, and scanning resumes right after it.
pub proof fn lemma_semicolon_leading(s: Seq<char>)
    requires
        trim(s).len() > 0,
        trim(s)[0] == ';',
    ensures
        next_token(s) == Some((seq![';'], trim(s).skip(1))),
{
}

/// A `;` after the first character ends the preceding token exactly at the
/// `;`, which is left in place and re-scanned as the next token, `";"`.
pub proof fn lemma_semicolon_splits(t: Seq<char>, k: int)
    requires
        trim(t) == t,
        0 < k < t.len(),
        t[k] == ';',
        forall|i: int| 0 <= i < k ==> is_plain(t[i]),
    ensures
        next_token(t) == Some((t.take(k), t.skip(k))),
        next_token(t.skip(k)) == Some((seq![';'], t.skip(k).skip(1))),
{
    lemma_scan_plain(t, 0, k, Seq::<char>::empty());
    assert(Seq::<char>::empty() + t.subrange(0, k) =~= t.take(k));
    let r = t.skip(k);
    assert(r[0] == ';');
    lemma_trim_props(t);
    assert(!is_shell_space(t.last()));
    assert(r.last() == t.last());
    lemma_trim_id(r);
    lemma_semicolon_leading(r);
}

/// The rendering of a sequence of assignments: `KEY=VALUE`, space-joined.
pub open spec fn render_envs(env: Seq<(Seq<char>, Seq<char>)>) -> Seq<char>
    decreases env.len(),
{
    if env.len() == 0 {
        Seq::empty()
    } else if env.len() == 1 {
        env[0].0 + seq!['='] + env[0].1
    } else {
        render_envs(env.drop_last()) + seq![' '] + env.last().0 + seq!['='] + env.last().1
    }
}

/// The rendering of the argument list: each argument preceded by a space.
pub open spec fn render_args(args: Seq<Seq<char>>) -> Seq<char>
    decreases args.len(),
{
    if args.len() == 0 {
        Seq::empty()
    } else {
        render_args(args.drop_last()) + seq![' '] + args.last()
    }
}

/// The debug rendering of a parsed line: assignments, then the command
/// (space-separated from them), then the arguments.
pub open spec fn render_line(
    env: Seq<(Seq<char>, Seq<char>)>,
    cmd: Option<Seq<char>>,
    args: Seq<Seq<char>>,
) -> Seq<char> {
    let c = match cmd {
        None => Seq::<char>::empty(),
        Some(cs) => if env.len() > 0 {
            seq![' '] + cs
        } else {
            cs
        },
    };
    render_envs(env) + c + render_args(args)
}

impl ShellLine {
    /// Renders the parsed line back into one string, as the shell echoes it.
    pub fn render(&self) -> (r: String)
        ensures
            r@ == render_line(
                env_views(self.env@),
                match self.command {
                    None => None,
                    Some(c) => Some(c@),
                },
                self.args.deep_view(),
            ),
    {
        let ghost ev = env_views(self.env@);
        let ghost adv = self.args.deep_view();
        let mut out = String::new();
        let n = self.env.len();
        let mut k: usize = 0;
        proof {
            assert(ev.take(0) =~= Seq::<(Seq<char>, Seq<char>)>::empty());
            assert(out@ =~= render_envs(ev.take(0)));
        }
        while k < n
            invariant
                0 <= k <= n,
                n == self.env@.len(),
                ev == env_views(self.env@),
                ev.len() == n,
                out@ == render_envs(ev.take(k as int)),
            decreases n - k,
        {
            proof {
                reveal_strlit(" ");
                reveal_strlit("=");
                assert(ev[k as int] == (self.env@[k as int].key@, self.env@[k as int].val@));
                assert(ev.take(k + 1).drop_last() =~= ev.take(k as int));
                assert(ev.take(k + 1).last() == ev[k as int]);
            }
            if k > 0 {
                out.append(" ");
            }
            out.append(self.env[k].key.as_str());
            out.append("=");
            out.append(self.env[k].val.as_str());
            proof {
                assert(out@ =~= render_envs(ev.take(k + 1)));
            }
            k = k + 1;
        }
        proof {
            assert(ev.take(n as int) =~= ev);
        }
        match &self.command {
            Some(c) => {
                if n > 0 {
                    out.append(" ");
                }
                out.append(c.as_str());
                proof {
                    reveal_strlit(" ");
                    assert(out@ =~= render_envs(ev) + (if ev.len() > 0 {
                        seq![' '] + c@
                    } else {
                        c@
                    }));
                }
            },
            None => {
                proof {
                    assert(out@ =~= render_envs(ev) + Seq::<char>::empty());
                }
            },
        }
        let ghost base = out@;
        let m = self.args.len();
        let mut t: usize = 0;
        proof {
            assert(adv.take(0) =~= Seq::<Seq<char>>::empty());
            assert(out@ =~= base + render_args(adv.take(0)));
        }
        while t < m
            invariant
                0 <= t <= m,
                m == self.args@.len(),
                adv == self.args.deep_view(),
                adv.len() == m,
                out@ == base + render_args(adv.take(t as int)),
            decreases m - t,
        {
            proof {
                reveal_strlit(" ");
                assert(adv.take(t + 1).drop_last() =~= adv.take(t as int));
                assert(adv.take(t + 1).last() == adv[t as int]);
                assert(adv[t as int] == self.args@[t as int]@);
            }
            out.append(" ");
            out.append(self.args[t].as_str());
            proof {
                assert(out@ =~= base + render_args(adv.take(t + 1)));
            }
            t = t + 1;
        }
        proof {
            assert(adv.take(m as int) =~= adv);
        }
        out
    }
}

} // verus!
