use vstd::prelude::*;

use crate::path::{extension_of_path, path_extension};
use crate::text::{
    lemma_first_equals, lemma_texts_differ_at, lemma_word_with_prefix,
    concat, concat3, first_index_of, has_prefix, has_suffix, join_words, slice_chars, split_char,
    split_pieces, str_eq, texts, join_with_spaces,
};

verus! {

/// An error met while reading a compilation command.
#[derive(Debug)]
pub struct CommandError {
    pub message: String,
}

/// A compilation database entry.
#[derive(Debug)]
pub struct CompileEntry {
    pub file: String,
    pub directory: String,
    pub command: String,
}

/// A compilation database.
#[derive(Debug)]
pub struct CompileDB {
    pub entries: Vec<CompileEntry>,
}

/// The remaining stream after taking the next non-empty token from the front:
/// the token (if any) and how many tokens were taken.
pub open spec fn next_nonempty(rem: Seq<Seq<char>>) -> (Option<Seq<char>>, nat)
    decreases rem.len(),
{
    if rem.len() == 0 {
        (None, 0)
    } else if rem[0].len() == 0 {
        let (t, c) = next_nonempty(rem.drop_first());
        (t, c + 1)
    } else {
        (Some(rem[0]), 1)
    }
}

/// The next non-empty token from the back and how many tokens were taken.
pub open spec fn prev_nonempty(rem: Seq<Seq<char>>) -> (Option<Seq<char>>, nat)
    decreases rem.len(),
{
    if rem.len() == 0 {
        (None, 0)
    } else if rem.last().len() == 0 {
        let (t, c) = prev_nonempty(rem.drop_last());
        (t, c + 1)
    } else {
        (Some(rem.last()), 1)
    }
}

pub proof fn lemma_next_nonempty(rem: Seq<Seq<char>>)
    ensures
        next_nonempty(rem).1 <= rem.len(),
        next_nonempty(rem).0 is Some ==> next_nonempty(rem).1 >= 1,
        next_nonempty(rem).0 is None ==> next_nonempty(rem).1 == rem.len(),
        next_nonempty(rem).0 matches Some(t) ==> t.len() > 0,
    decreases rem.len(),
{
    if rem.len() > 0 && rem[0].len() == 0 {
        lemma_next_nonempty(rem.drop_first());
    }
}

pub proof fn lemma_prev_nonempty(rem: Seq<Seq<char>>)
    ensures
        prev_nonempty(rem).1 <= rem.len(),
        prev_nonempty(rem).0 is None ==> prev_nonempty(rem).1 == rem.len(),
    decreases rem.len(),
{
    if rem.len() > 0 && rem.last().len() == 0 {
        lemma_prev_nonempty(rem.drop_last());
    }
}

/// The message for a missing token.
pub open spec fn missing_token_text() -> Seq<char> {
    "expect <token>, found none"@
}

/// Takes the next non-empty token, failing when there is none.
pub open spec fn expect_next(rem: Seq<Seq<char>>) -> Result<(Seq<char>, Seq<Seq<char>>), Seq<char>> {
    let (t, c) = next_nonempty(rem);
    match t {
        None => Err(missing_token_text()),
        Some(t) => Ok((t, rem.skip(c as int))),
    }
}

/// Collects the pieces of a quoted item: `ptr` and further tokens up to the one
/// that ends with `suffix` (which is dropped), with the stream left after them.
pub open spec fn collect_quoted(ptr: Seq<char>, suffix: char, rem: Seq<Seq<char>>) -> Result<
    (Seq<Seq<char>>, Seq<Seq<char>>),
    Seq<char>,
>
    decreases rem.len(),
{
    if ptr.len() > 0 && ptr.last() == suffix {
        Ok((seq![ptr.drop_last()], rem))
    } else {
        let (t, c) = next_nonempty(rem);
        match t {
            None => Err(missing_token_text()),
            Some(t) => {
                proof {
                    lemma_next_nonempty(rem);
                }
                match collect_quoted(t, suffix, rem.skip(c as int)) {
                    Ok((items, r)) => Ok((seq![ptr] + items, r)),
                    Err(e) => Err(e),
                }
            },
        }
    }
}

/// Unescapes an item quoted by `prefix ... suffix`, possibly spread over several
/// tokens: whether it was quoted, its text (pieces joined by spaces), and the stream left.
pub open spec fn unescape_spec(prefix: char, suffix: char, cur: Seq<char>, rem: Seq<Seq<char>>) -> Result<
    (bool, Seq<char>, Seq<Seq<char>>),
    Seq<char>,
> {
    if !(cur.len() > 0 && cur[0] == prefix) {
        Ok((false, cur, rem))
    } else {
        match collect_quoted(cur.drop_first(), suffix, rem) {
            Ok((items, r)) => Ok((true, join_words(items), r)),
            Err(e) => Err(e),
        }
    }
}

/// Unescapes double quotes, or else single quotes.
pub open spec fn unescape_quotes_spec(cur: Seq<char>, rem: Seq<Seq<char>>) -> Result<
    (Seq<char>, Seq<Seq<char>>),
    Seq<char>,
> {
    match unescape_spec('"', '"', cur, rem) {
        Err(e) => Err(e),
        Ok((true, s, r)) => Ok((s, r)),
        Ok((false, _, r)) => match unescape_spec('\'', '\'', cur, r) {
            Err(e) => Err(e),
            Ok((_, s, r2)) => Ok((s, r2)),
        },
    }
}

/// An item that must not be quoted.
pub open spec fn expect_plain_spec(cur: Seq<char>) -> Result<Seq<char>, Seq<char>> {
    if cur.len() > 0 && (cur[0] == '"' || cur[0] == '\'') {
        Err("unexpected token with quotes: "@ + cur)
    } else {
        Ok(cur)
    }
}

/// A `key` or `key=value` item; the value may be quoted.
pub open spec fn key_value_spec(cur: Seq<char>, rem: Seq<Seq<char>>) -> Result<
    ((Seq<char>, Option<Seq<char>>), Seq<Seq<char>>),
    Seq<char>,
> {
    match expect_plain_spec(cur) {
        Err(e) => Err(e),
        Ok(item) => match first_index_of(item, '=') {
            None => Ok(((item, None), rem)),
            Some(i) => match unescape_quotes_spec(item.subrange(i + 1, item.len() as int), rem) {
                Ok((v, r)) => Ok(((item.subrange(0, i), Some(v)), r)),
                Err(e) => Err(e),
            },
        },
    }
}

} // verus!

verus! {

/// Compiler arguments recognised in a compilation database command.
#[derive(Debug)]
pub enum ClangArg {
    /// -c
    ModeCompile,
    /// -std=<token>
    Standard(String),
    /// -D<token>
    Define(String),
    /// -I <token>
    Include(String),
    /// -isysroot <token>
    IncludeSysroot(String),
    /// -O<level>
    Optimization(String),
    /// -arch <token>
    Arch(String),
    /// -march=<token>
    MachineArch(String),
    /// -g, --debug
    Debug,
    /// -f<key>{=<value>}
    Flag(String, Option<String>),
    /// -W<key>{=<value>}
    Warning(String, Option<String>),
    /// -w, --no-warnings
    NoWarnings,
    /// -pthread
    POSIXThread,
    /// -o <token>
    Output(String),
    /// <token>
    Input(String),
}

/// The mathematical model of a [`ClangArg`].
pub enum DbArg {
    ModeCompile,
    Standard(Seq<char>),
    Define(Seq<char>),
    Include(Seq<char>),
    IncludeSysroot(Seq<char>),
    Optimization(Seq<char>),
    Arch(Seq<char>),
    MachineArch(Seq<char>),
    Debug,
    Flag(Seq<char>, Option<Seq<char>>),
    Warning(Seq<char>, Option<Seq<char>>),
    NoWarnings,
    POSIXThread,
    Output(Seq<char>),
    Input(Seq<char>),
}

pub open spec fn opt_text(v: Option<String>) -> Option<Seq<char>> {
    match v {
        Some(s) => Some(s@),
        None => None,
    }
}

impl ClangArg {
    pub open spec fn model(&self) -> DbArg {
        match self {
            ClangArg::ModeCompile => DbArg::ModeCompile,
            ClangArg::Standard(v) => DbArg::Standard(v@),
            ClangArg::Define(v) => DbArg::Define(v@),
            ClangArg::Include(v) => DbArg::Include(v@),
            ClangArg::IncludeSysroot(v) => DbArg::IncludeSysroot(v@),
            ClangArg::Optimization(v) => DbArg::Optimization(v@),
            ClangArg::Arch(v) => DbArg::Arch(v@),
            ClangArg::MachineArch(v) => DbArg::MachineArch(v@),
            ClangArg::Debug => DbArg::Debug,
            ClangArg::Flag(k, v) => DbArg::Flag(k@, opt_text(*v)),
            ClangArg::Warning(k, v) => DbArg::Warning(k@, opt_text(*v)),
            ClangArg::NoWarnings => DbArg::NoWarnings,
            ClangArg::POSIXThread => DbArg::POSIXThread,
            ClangArg::Output(v) => DbArg::Output(v@),
            ClangArg::Input(v) => DbArg::Input(v@),
        }
    }
}

pub open spec fn db_args_model(v: Seq<ClangArg>) -> Seq<DbArg> {
    v.map_values(|a: ClangArg| a.model())
}

/// Maps the value of a successful step.
pub open spec fn with_arg<X>(r: Result<(X, Seq<Seq<char>>), Seq<char>>, f: spec_fn(X) -> DbArg) -> Result<
    (Option<DbArg>, Seq<Seq<char>>),
    Seq<char>,
> {
    match r {
        Ok((x, rest)) => Ok((Some(f(x)), rest)),
        Err(e) => Err(e),
    }
}

/// A plain item from the current token, the stream unchanged.
pub open spec fn plain_arg(cur: Seq<char>, rem: Seq<Seq<char>>, f: spec_fn(Seq<char>) -> DbArg) -> Result<
    (Option<DbArg>, Seq<Seq<char>>),
    Seq<char>,
> {
    match expect_plain_spec(cur) {
        Ok(v) => Ok((Some(f(v)), rem)),
        Err(e) => Err(e),
    }
}

/// A quoted-or-plain item taken from the next token.
pub open spec fn next_quoted_arg(rem: Seq<Seq<char>>, f: spec_fn(Seq<char>) -> DbArg) -> Result<
    (Option<DbArg>, Seq<Seq<char>>),
    Seq<char>,
> {
    match expect_next(rem) {
        Err(e) => Err(e),
        Ok((t, r)) => with_arg(unescape_quotes_spec(t, r), f),
    }
}

/// Reads the next argument of a command from the stream: `None` at the end of the
/// stream, the argument otherwise, with the stream left after it; or an error message.
pub open spec fn try_parse_spec(rem: Seq<Seq<char>>) -> Result<(Option<DbArg>, Seq<Seq<char>>), Seq<char>> {
    let (tok, c) = next_nonempty(rem);
    let rest = rem.skip(c as int);
    match tok {
        None => Ok((None, rest)),
        Some(t) => if !has_prefix(t, "-"@) {
            Ok((Some(DbArg::Input(t)), rest))
        } else if t == "-c"@ {
            Ok((Some(DbArg::ModeCompile), rest))
        } else if has_prefix(t, "-std="@) {
            plain_arg(t.skip("-std="@.len() as int), rest, |v: Seq<char>| DbArg::Standard(v))
        } else if has_prefix(t, "-D"@) {
            with_arg(
                unescape_quotes_spec(t.skip("-D"@.len() as int), rest),
                |v: Seq<char>| DbArg::Define(v),
            )
        } else if t == "-I"@ {
            next_quoted_arg(rest, |v: Seq<char>| DbArg::Include(v))
        } else if has_prefix(t, "-I"@) {
            with_arg(
                unescape_quotes_spec(t.skip("-I"@.len() as int), rest),
                |v: Seq<char>| DbArg::Include(v),
            )
        } else if has_prefix(t, "-O"@) {
            plain_arg(t.skip("-O"@.len() as int), rest, |v: Seq<char>| DbArg::Optimization(v))
        } else if t == "-arch"@ {
            match expect_next(rest) {
                Err(e) => Err(e),
                Ok((n, r)) => plain_arg(n, r, |v: Seq<char>| DbArg::Arch(v)),
            }
        } else if has_prefix(t, "-march="@) {
            plain_arg(t.skip("-march="@.len() as int), rest, |v: Seq<char>| DbArg::MachineArch(v))
        } else if t == "-g"@ || t == "--debug"@ {
            Ok((Some(DbArg::Debug), rest))
        } else if t == "-isysroot"@ {
            next_quoted_arg(rest, |v: Seq<char>| DbArg::IncludeSysroot(v))
        } else if has_prefix(t, "-f"@) {
            with_arg(
                key_value_spec(t.skip("-f"@.len() as int), rest),
                |kv: (Seq<char>, Option<Seq<char>>)| DbArg::Flag(kv.0, kv.1),
            )
        } else if has_prefix(t, "-W"@) {
            with_arg(
                key_value_spec(t.skip("-W"@.len() as int), rest),
                |kv: (Seq<char>, Option<Seq<char>>)| DbArg::Warning(kv.0, kv.1),
            )
        } else if t == "-w"@ || t == "--no-warnings"@ {
            Ok((Some(DbArg::NoWarnings), rest))
        } else if t == "-pthread"@ {
            Ok((Some(DbArg::POSIXThread), rest))
        } else if t == "-o"@ {
            next_quoted_arg(rest, |v: Seq<char>| DbArg::Output(v))
        } else {
            Err("unknown flag: "@ + t)
        },
    }
}

} // verus!

verus! {

pub proof fn lemma_collect_quoted(ptr: Seq<char>, suffix: char, rem: Seq<Seq<char>>)
    ensures
        collect_quoted(ptr, suffix, rem) matches Ok((_, r)) ==> r.len() <= rem.len(),
    decreases rem.len(),
{
    if !(ptr.len() > 0 && ptr.last() == suffix) {
        lemma_next_nonempty(rem);
        let (t, c) = next_nonempty(rem);
        if let Some(t) = t {
            lemma_collect_quoted(t, suffix, rem.skip(c as int));
        }
    }
}

pub proof fn lemma_unescape_quotes(cur: Seq<char>, rem: Seq<Seq<char>>)
    ensures
        unescape_spec('"', '"', cur, rem) matches Ok((_, _, r)) ==> r.len() <= rem.len(),
        unescape_quotes_spec(cur, rem) matches Ok((_, r)) ==> r.len() <= rem.len(),
        key_value_spec(cur, rem) matches Ok((_, r)) ==> r.len() <= rem.len(),
{
    if cur.len() > 0 {
        lemma_collect_quoted(cur.drop_first(), '"', rem);
        lemma_collect_quoted(cur.drop_first(), '\'', rem);
    }
    if let Ok(item) = expect_plain_spec(cur) {
        if let Some(i) = first_index_of(item, '=') {
            let v = item.subrange(i + 1, item.len() as int);
            if v.len() > 0 {
                lemma_collect_quoted(v.drop_first(), '"', rem);
                lemma_collect_quoted(v.drop_first(), '\'', rem);
            }
        }
    }
}

pub proof fn lemma_try_parse_consumes(rem: Seq<Seq<char>>)
    ensures
        try_parse_spec(rem) matches Ok((Some(_), r)) ==> r.len() < rem.len(),
{
    lemma_next_nonempty(rem);
    let (tok, c) = next_nonempty(rem);
    let rest = rem.skip(c as int);
    if let Some(t) = tok {
        lemma_unescape_quotes(t.skip("-D"@.len() as int), rest);
        lemma_unescape_quotes(t.skip("-I"@.len() as int), rest);
        lemma_unescape_quotes(t.skip("-f"@.len() as int), rest);
        lemma_unescape_quotes(t.skip("-W"@.len() as int), rest);
        lemma_next_nonempty(rest);
        let (n, c2) = next_nonempty(rest);
        if let Some(n) = n {
            lemma_unescape_quotes(n, rest.skip(c2 as int));
        }
    }
}

/// Reads all arguments of a command; an error message where one is malformed.
pub open spec fn parse_command_spec(rem: Seq<Seq<char>>) -> Result<Seq<DbArg>, Seq<char>>
    decreases rem.len(),
{
    match try_parse_spec(rem) {
        Err(e) => Err(e),
        Ok((None, _)) => Ok(Seq::empty()),
        Ok((Some(a), r)) => {
            proof {
                lemma_try_parse_consumes(rem);
            }
            match parse_command_spec(r) {
                Ok(rest) => Ok(seq![a] + rest),
                Err(e) => Err(e),
            }
        },
    }
}

/// A stream of tokens that can be consumed from both ends.
#[derive(Debug)]
pub struct TokenStream {
    pub tokens: Vec<String>,
    pub front: usize,
    pub back: usize,
}

/// An error outcome carries the given message.
pub open spec fn fails_with<X>(r: Result<X, CommandError>, msg: Seq<char>) -> bool {
    r matches Err(e) && e.message@ == msg
}

impl TokenStream {
    pub open spec fn inv(&self) -> bool {
        self.front <= self.back <= self.tokens@.len()
    }

    /// The tokens not yet consumed.
    pub open spec fn rest(&self) -> Seq<Seq<char>> {
        texts(self.tokens@).subrange(self.front as int, self.back as int)
    }

    /// The stream of the pieces of `text` separated by `sep`.
    pub fn new(text: &str, sep: char) -> (r: Self)
        ensures
            r.inv(),
            r.rest() == split_pieces(text@, sep),
    {
        let tokens = split_char(text, sep);
        let n = tokens.len();
        let r = TokenStream { tokens, front: 0, back: n };
        assert(r.rest() =~= split_pieces(text@, sep));
        r
    }

    /// The next non-empty token from the front, skipping empty ones.
    pub fn next_or_end(&mut self) -> (r: Option<String>)
        requires
            old(self).inv(),
        ensures
            final(self).inv(),
            final(self).tokens == old(self).tokens,
            opt_text(r) == next_nonempty(old(self).rest()).0,
            final(self).rest() == old(self).rest().skip(next_nonempty(old(self).rest()).1 as int),
    {
        let ghost start = self.rest();
        let ghost base = self.front;
        loop
            invariant
                self.inv(),
                self.tokens == old(self).tokens,
                self.back == old(self).back,
                base == old(self).front,
                start == old(self).rest(),
                base <= self.front,
                self.rest() == start.skip(self.front - base),
                next_nonempty(start) == {
                    let (t, c) = next_nonempty(self.rest());
                    (t, c + (self.front - base) as nat)
                },
            decreases self.back - self.front,
        {
            if self.front == self.back {
                proof {
                    assert(self.rest().len() == 0);
                }
                return None;
            }
            let ghost prev_rest = self.rest();
            let i = self.front;
            self.front = self.front + 1;
            proof {
                assert(old(self).rest().skip(i - base + 1) =~= texts(self.tokens@).subrange(
                    self.front as int,
                    self.back as int,
                ));
                assert(prev_rest.drop_first() =~= self.rest());
                assert(prev_rest[0] == self.tokens@[i as int]@);
            }
            if self.tokens[i].unicode_len() > 0 {
                return Some(self.tokens[i].clone());
            }
        }
    }

    /// The next non-empty token from the back, skipping empty ones.
    pub fn prev_or_end(&mut self) -> (r: Option<String>)
        requires
            old(self).inv(),
        ensures
            final(self).inv(),
            final(self).tokens == old(self).tokens,
            opt_text(r) == prev_nonempty(old(self).rest()).0,
            final(self).rest() == old(self).rest().take(
                old(self).rest().len() - prev_nonempty(old(self).rest()).1,
            ),
    {
        let ghost start = self.rest();
        let ghost top = self.back;
        proof {
            lemma_prev_nonempty(start);
        }
        loop
            invariant
                self.inv(),
                self.tokens == old(self).tokens,
                self.front == old(self).front,
                top == old(self).back,
                start == old(self).rest(),
                start.len() == top - self.front,
                self.back <= top,
                self.rest() == start.take(start.len() - (top - self.back)),
                prev_nonempty(start) == {
                    let (t, c) = prev_nonempty(self.rest());
                    (t, c + (top - self.back) as nat)
                },
            decreases self.back - self.front,
        {
            if self.front == self.back {
                proof {
                    assert(self.rest().len() == 0);
                }
                return None;
            }
            let ghost prev_rest = self.rest();
            self.back = self.back - 1;
            let i = self.back;
            proof {
                assert(prev_rest.drop_last() =~= self.rest());
                assert(prev_rest.last() == self.tokens@[i as int]@);
                assert(start.len() == top - self.front);
                let k = start.len() - (top - (self.back + 1));
                assert(prev_rest == start.take(k));
                assert(start.take(k).drop_last() =~= start.take(k - 1));
                assert(k - 1 == start.len() - (top - self.back));
            }
            if self.tokens[i].unicode_len() > 0 {
                return Some(self.tokens[i].clone());
            }
        }
    }

    fn expect_token(item: Option<String>) -> (r: Result<String, CommandError>)
        ensures
            match item {
                None => fails_with(r, missing_token_text()),
                Some(t) => r matches Ok(x) && x@ == t@,
            },
    {
        match item {
            None => Err(CommandError { message: "expect <token>, found none".to_owned() }),
            Some(token) => Ok(token),
        }
    }

    /// The next non-empty token from the front; an error when there is none.
    pub fn next_expect_token(&mut self) -> (r: Result<String, CommandError>)
        requires
            old(self).inv(),
        ensures
            final(self).inv(),
            final(self).tokens == old(self).tokens,
            match expect_next(old(self).rest()) {
                Ok((t, rest)) => r matches Ok(x) && x@ == t && final(self).rest() == rest,
                Err(e) => fails_with(r, e) && final(self).rest() == Seq::<Seq<char>>::empty(),
            },
    {
        proof {
            lemma_next_nonempty(self.rest());
        }
        let r = Self::expect_token(self.next_or_end());
        proof {
            if r is Err {
                assert(self.rest() =~= Seq::<Seq<char>>::empty());
            }
        }
        r
    }

    /// The next non-empty token from the back; an error when there is none.
    pub fn prev_expect_token(&mut self) -> (r: Result<String, CommandError>)
        requires
            old(self).inv(),
        ensures
            final(self).inv(),
            final(self).tokens == old(self).tokens,
            final(self).rest() == old(self).rest().take(
                old(self).rest().len() - prev_nonempty(old(self).rest()).1,
            ),
            match prev_nonempty(old(self).rest()).0 {
                Some(t) => r matches Ok(x) && x@ == t,
                None => fails_with(r, missing_token_text()),
            },
    {
        Self::expect_token(self.prev_or_end())
    }

    fn expect_literal(item: Option<String>, exp: &str) -> (r: Result<(), CommandError>)
        ensures
            match item {
                None => fails_with(r, "expect '"@ + exp@ + "', found none"@),
                Some(t) => if t@ == exp@ {
                    r is Ok
                } else {
                    fails_with(r, "expect '"@ + exp@ + "', found '"@ + t@ + "'"@)
                },
            },
    {
        match item {
            None => Err(CommandError { message: concat3("expect '", exp, "', found none") }),
            Some(token) => {
                if !str_eq(token.as_str(), exp) {
                    let mut m = concat3("expect '", exp, "', found '");
                    m.append(token.as_str());
                    m.append("'");
                    return Err(CommandError { message: m });
                }
                Ok(())
            },
        }
    }

    /// The next raw token from the front (empty ones included) must be `exp`.
    pub fn next_expect_literal(&mut self, exp: &str) -> (r: Result<(), CommandError>)
        requires
            old(self).inv(),
        ensures
            final(self).inv(),
            final(self).tokens == old(self).tokens,
            old(self).rest().len() == 0 ==> final(self).rest() == old(self).rest() && fails_with(
                r,
                "expect '"@ + exp@ + "', found none"@,
            ),
            old(self).rest().len() > 0 ==> final(self).rest() == old(self).rest().drop_first() && (
            if old(self).rest()[0] == exp@ {
                r is Ok
            } else {
                fails_with(r, "expect '"@ + exp@ + "', found '"@ + old(self).rest()[0] + "'"@)
            }),
    {
        let item = if self.front < self.back {
            let i = self.front;
            self.front = self.front + 1;
            proof {
                assert(old(self).rest().drop_first() =~= self.rest());
                assert(old(self).rest()[0] == self.tokens@[i as int]@);
            }
            Some(self.tokens[i].clone())
        } else {
            None
        };
        Self::expect_literal(item, exp)
    }

    /// The next raw token from the back (empty ones included) must be `exp`.
    pub fn prev_expect_literal(&mut self, exp: &str) -> (r: Result<(), CommandError>)
        requires
            old(self).inv(),
        ensures
            final(self).inv(),
            final(self).tokens == old(self).tokens,
            old(self).rest().len() == 0 ==> final(self).rest() == old(self).rest() && fails_with(
                r,
                "expect '"@ + exp@ + "', found none"@,
            ),
            old(self).rest().len() > 0 ==> final(self).rest() == old(self).rest().drop_last() && (
            if old(self).rest().last() == exp@ {
                r is Ok
            } else {
                fails_with(r, "expect '"@ + exp@ + "', found '"@ + old(self).rest().last() + "'"@)
            }),
    {
        let item = if self.front < self.back {
            self.back = self.back - 1;
            let i = self.back;
            proof {
                assert(old(self).rest().drop_last() =~= self.rest());
                assert(old(self).rest().last() == self.tokens@[i as int]@);
            }
            Some(self.tokens[i].clone())
        } else {
            None
        };
        Self::expect_literal(item, exp)
    }
}

} // verus!

verus! {

/// Puts already-collected pieces in front of the outcome of collecting the rest.
pub open spec fn prepend_items(
    items: Seq<Seq<char>>,
    r: Result<(Seq<Seq<char>>, Seq<Seq<char>>), Seq<char>>,
) -> Result<(Seq<Seq<char>>, Seq<Seq<char>>), Seq<char>> {
    match r {
        Ok((more, rest)) => Ok((items + more, rest)),
        Err(e) => Err(e),
    }
}

/// An outcome of reading from the stream agrees with its spec.
pub open spec fn read_agrees<X>(
    r: Result<X, CommandError>,
    s: Result<(Seq<char>, Seq<Seq<char>>), Seq<char>>,
    text: spec_fn(X) -> Seq<char>,
    after: Seq<Seq<char>>,
) -> bool {
    match s {
        Ok((v, rest)) => r matches Ok(x) && text(x) == v && after == rest,
        Err(e) => fails_with(r, e),
    }
}

impl ClangArg {
    fn unescape(prefix: char, suffix: char, cur: &str, stream: &mut TokenStream) -> (r: Result<
        (bool, String),
        CommandError,
    >)
        requires
            old(stream).inv(),
        ensures
            final(stream).inv(),
            final(stream).tokens == old(stream).tokens,
            match unescape_spec(prefix, suffix, cur@, old(stream).rest()) {
                Ok((b, s, rest)) => r matches Ok((b2, x)) && b2 == b && x@ == s
                    && final(stream).rest() == rest,
                Err(e) => fails_with(r, e),
            },
    {
        let n = cur.unicode_len();
        if !(n > 0 && cur.get_char(0) == prefix) {
            return Ok((false, cur.to_owned()));
        }
        let mut ptr = cur.substring_char(1, n).to_owned();
        assert(ptr@ =~= cur@.drop_first());
        let mut items: Vec<String> = Vec::new();
        let ghost target = collect_quoted(cur@.drop_first(), suffix, old(stream).rest());
        loop
            invariant_except_break
                target == prepend_items(texts(items@), collect_quoted(ptr@, suffix, stream.rest())),
            invariant
                stream.inv(),
                stream.tokens == old(stream).tokens,
                cur@.len() > 0 && cur@[0] == prefix,
                target == collect_quoted(cur@.drop_first(), suffix, old(stream).rest()),
            ensures
                target == Ok::<(Seq<Seq<char>>, Seq<Seq<char>>), Seq<char>>((texts(items@), stream.rest())),
            decreases stream.rest().len(),
        {
            let m = ptr.unicode_len();
            if m > 0 && ptr.get_char(m - 1) == suffix {
                let piece = slice_chars(ptr.as_str(), 0, m - 1);
                proof {
                    assert(piece@ =~= ptr@.drop_last());
                }
                let ghost before = items@;
                items.push(piece);
                proof {
                    assert(texts(items@) =~= texts(before) + seq![ptr@.drop_last()]);
                }
                break ;
            }
            let ghost before = items@;
            let ghost rem = stream.rest();
            proof {
                lemma_next_nonempty(rem);
            }
            match stream.next_expect_token() {
                Err(e) => {
                    return Err(e);
                },
                Ok(t) => {
                    items.push(ptr);
                    proof {
                        assert(texts(items@) =~= texts(before) + seq![ptr@]);
                        if let Ok((more, _)) = collect_quoted(t@, suffix, stream.rest()) {
                            assert(texts(before) + (seq![ptr@] + more) =~= texts(items@) + more);
                        }
                    }
                    ptr = t;
                },
            }
        }
        let joined = crate::text::join_with_spaces(&items);
        Ok((true, joined))
    }

    fn unescape_double_quotes(cur: &str, stream: &mut TokenStream) -> (r: Result<
        (bool, String),
        CommandError,
    >)
        requires
            old(stream).inv(),
        ensures
            final(stream).inv(),
            final(stream).tokens == old(stream).tokens,
            match unescape_spec('"', '"', cur@, old(stream).rest()) {
                Ok((b, s, rest)) => r matches Ok((b2, x)) && b2 == b && x@ == s
                    && final(stream).rest() == rest,
                Err(e) => fails_with(r, e),
            },
    {
        Self::unescape('"', '"', cur, stream)
    }

    fn unescape_single_quotes(cur: &str, stream: &mut TokenStream) -> (r: Result<
        (bool, String),
        CommandError,
    >)
        requires
            old(stream).inv(),
        ensures
            final(stream).inv(),
            final(stream).tokens == old(stream).tokens,
            match unescape_spec('\'', '\'', cur@, old(stream).rest()) {
                Ok((b, s, rest)) => r matches Ok((b2, x)) && b2 == b && x@ == s
                    && final(stream).rest() == rest,
                Err(e) => fails_with(r, e),
            },
    {
        Self::unescape('\'', '\'', cur, stream)
    }

    fn unescape_quotes(cur: &str, stream: &mut TokenStream) -> (r: Result<String, CommandError>)
        requires
            old(stream).inv(),
        ensures
            final(stream).inv(),
            final(stream).tokens == old(stream).tokens,
            read_agrees(
                r,
                unescape_quotes_spec(cur@, old(stream).rest()),
                |x: String| x@,
                final(stream).rest(),
            ),
    {
        let (changed, result) = Self::unescape_double_quotes(cur, stream)?;
        if changed {
            Ok(result)
        } else {
            let (_, result) = Self::unescape_single_quotes(cur, stream)?;
            Ok(result)
        }
    }

    fn expect_plain(cur: &str) -> (r: Result<String, CommandError>)
        ensures
            match expect_plain_spec(cur@) {
                Ok(v) => r matches Ok(x) && x@ == v,
                Err(e) => fails_with(r, e),
            },
    {
        let n = cur.unicode_len();
        if n > 0 && (cur.get_char(0) == '"' || cur.get_char(0) == '\'') {
            return Err(CommandError { message: concat("unexpected token with quotes: ", cur) });
        }
        Ok(cur.to_owned())
    }

    fn parse_maybe_key_value(cur: &str, stream: &mut TokenStream) -> (r: Result<
        (String, Option<String>),
        CommandError,
    >)
        requires
            old(stream).inv(),
        ensures
            final(stream).inv(),
            final(stream).tokens == old(stream).tokens,
            match key_value_spec(cur@, old(stream).rest()) {
                Ok(((k, v), rest)) => r matches Ok((k2, v2)) && k2@ == k && opt_text(v2) == v
                    && final(stream).rest() == rest,
                Err(e) => fails_with(r, e),
            },
    {
        let item = Self::expect_plain(cur)?;
        match crate::text::find_char(item.as_str(), '=') {
            None => Ok((item, None)),
            Some(index) => {
                let n = item.unicode_len();
                let key = slice_chars(item.as_str(), 0, index);
                let val = slice_chars(item.as_str(), index + 1, n);
                let v = Self::unescape_quotes(val.as_str(), stream)?;
                Ok((key, Some(v)))
            },
        }
    }
}

} // verus!

verus! {

/// An outcome of reading one argument agrees with its spec.
pub open spec fn arg_agrees(
    r: Result<Option<ClangArg>, CommandError>,
    s: Result<(Option<DbArg>, Seq<Seq<char>>), Seq<char>>,
    after: Seq<Seq<char>>,
) -> bool {
    match s {
        Ok((None, rest)) => r matches Ok(None) && after == rest,
        Ok((Some(a), rest)) => r matches Ok(Some(x)) && x.model() == a && after == rest,
        Err(e) => fails_with(r, e),
    }
}

impl ClangArg {
    fn try_parse(stream: &mut TokenStream) -> (r: Result<Option<Self>, CommandError>)
        requires
            old(stream).inv(),
        ensures
            final(stream).inv(),
            final(stream).tokens == old(stream).tokens,
            arg_agrees(r, try_parse_spec(old(stream).rest()), final(stream).rest()),
    {
        let token = match stream.next_or_end() {
            None => {
                return Ok(None);
            },
            Some(token) => token,
        };
        let t = token.as_str();
        let arg = if !crate::text::starts_with(t, "-") {
            ClangArg::Input(token.clone())
        } else if str_eq(t, "-c") {
            ClangArg::ModeCompile
        } else if let Some(item) = crate::text::strip_prefix(t, "-std=") {
            ClangArg::Standard(Self::expect_plain(item.as_str())?)
        } else if let Some(item) = crate::text::strip_prefix(t, "-D") {
            ClangArg::Define(Self::unescape_quotes(item.as_str(), stream)?)
        } else if str_eq(t, "-I") {
            let next = stream.next_expect_token()?;
            ClangArg::Include(Self::unescape_quotes(next.as_str(), stream)?)
        } else if let Some(item) = crate::text::strip_prefix(t, "-I") {
            ClangArg::Include(Self::unescape_quotes(item.as_str(), stream)?)
        } else if let Some(item) = crate::text::strip_prefix(t, "-O") {
            ClangArg::Optimization(Self::expect_plain(item.as_str())?)
        } else if str_eq(t, "-arch") {
            let next = stream.next_expect_token()?;
            ClangArg::Arch(Self::expect_plain(next.as_str())?)
        } else if let Some(item) = crate::text::strip_prefix(t, "-march=") {
            ClangArg::MachineArch(Self::expect_plain(item.as_str())?)
        } else if str_eq(t, "-g") || str_eq(t, "--debug") {
            ClangArg::Debug
        } else if str_eq(t, "-isysroot") {
            let next = stream.next_expect_token()?;
            ClangArg::IncludeSysroot(Self::unescape_quotes(next.as_str(), stream)?)
        } else if let Some(item) = crate::text::strip_prefix(t, "-f") {
            let (k, v) = Self::parse_maybe_key_value(item.as_str(), stream)?;
            ClangArg::Flag(k, v)
        } else if let Some(item) = crate::text::strip_prefix(t, "-W") {
            let (k, v) = Self::parse_maybe_key_value(item.as_str(), stream)?;
            ClangArg::Warning(k, v)
        } else if str_eq(t, "-w") || str_eq(t, "--no-warnings") {
            ClangArg::NoWarnings
        } else if str_eq(t, "-pthread") {
            ClangArg::POSIXThread
        } else if str_eq(t, "-o") {
            let next = stream.next_expect_token()?;
            ClangArg::Output(Self::unescape_quotes(next.as_str(), stream)?)
        } else {
            return Err(CommandError { message: concat("unknown flag: ", t) });
        };
        Ok(Some(arg))
    }

    /// Appends the words this argument contributes to a command for the analysis.
    fn accumulate_arg_for_libra(&self, args: &mut Vec<String>)
        ensures
            texts(final(args)@) == texts(old(args)@) + libra_words(self.model()),
    {
        let ghost before = texts(args@);
        match self {
            ClangArg::ModeCompile => {
                args.push("-c".to_owned());
            },
            ClangArg::Standard(v) => {
                args.push(concat("-std=", v.as_str()));
            },
            ClangArg::Define(v) => {
                args.push(concat("-D", v.as_str()));
            },
            ClangArg::Include(v) => {
                args.push(concat("-I", v.as_str()));
            },
            ClangArg::IncludeSysroot(v) => {
                args.push("-isysroot".to_owned());
                args.push(v.clone());
            },
            ClangArg::Optimization(_) => {
                // libra handles optimization itself
            },
            ClangArg::Arch(v) => {
                args.push("-arch".to_owned());
                args.push(v.clone());
            },
            ClangArg::MachineArch(v) => {
                args.push(concat("-march=", v.as_str()));
            },
            ClangArg::Debug => {
                // libra handles metadata itself
            },
            ClangArg::Flag(k, None) => {
                args.push(concat("-f", k.as_str()));
            },
            ClangArg::Flag(k, Some(v)) => {
                args.push(concat3("-f", k.as_str(), "=").concat(v.as_str()));
            },
            ClangArg::Warning(k, None) => {
                args.push(concat("-W", k.as_str()));
            },
            ClangArg::Warning(k, Some(v)) => {
                args.push(concat3("-W", k.as_str(), "=").concat(v.as_str()));
            },
            ClangArg::NoWarnings => {
                args.push("-w".to_owned());
            },
            ClangArg::POSIXThread => {
                args.push("-pthread".to_owned());
            },
            ClangArg::Output(_) => {},
            ClangArg::Input(_) => {},
        }
        proof {
            assert(texts(args@) =~= before + libra_words(self.model()));
        }
    }
}

/// The words an argument contributes to a command for the analysis.
pub open spec fn libra_words(a: DbArg) -> Seq<Seq<char>> {
    match a {
        DbArg::ModeCompile => seq!["-c"@],
        DbArg::Standard(v) => seq!["-std="@ + v],
        DbArg::Define(v) => seq!["-D"@ + v],
        DbArg::Include(v) => seq!["-I"@ + v],
        DbArg::IncludeSysroot(v) => seq!["-isysroot"@, v],
        DbArg::Optimization(_) => seq![],
        DbArg::Arch(v) => seq!["-arch"@, v],
        DbArg::MachineArch(v) => seq!["-march="@ + v],
        DbArg::Debug => seq![],
        DbArg::Flag(k, None) => seq!["-f"@ + k],
        DbArg::Flag(k, Some(v)) => seq!["-f"@ + k + "="@ + v],
        DbArg::Warning(k, None) => seq!["-W"@ + k],
        DbArg::Warning(k, Some(v)) => seq!["-W"@ + k + "="@ + v],
        DbArg::NoWarnings => seq!["-w"@],
        DbArg::POSIXThread => seq!["-pthread"@],
        DbArg::Output(_) => seq![],
        DbArg::Input(_) => seq![],
    }
}

} // verus!

verus! {

/// Languages that a compilation command may be inferred to compile.
#[derive(Clone, Copy, Debug, PartialEq, Eq, Structural, PartialOrd, Ord, Hash)]
pub enum ClangSupportedLanguage {
    /// .c
    C,
    /// .cc, .cpp
    CPP,
    /// .m
    ObjC,
    /// .mm
    ObjCPP,
    /// .ll, .bc
    Bitcode,
    /// .o
    Object,
}

/// The language a file extension stands for, if it is one of those supported.
pub open spec fn language_of_extension(ext: Seq<char>) -> Option<ClangSupportedLanguage> {
    if ext == "c"@ {
        Some(ClangSupportedLanguage::C)
    } else if ext == "cc"@ || ext == "cpp"@ {
        Some(ClangSupportedLanguage::CPP)
    } else if ext == "m"@ {
        Some(ClangSupportedLanguage::ObjC)
    } else if ext == "mm"@ {
        Some(ClangSupportedLanguage::ObjCPP)
    } else if ext == "bc"@ || ext == "ll"@ {
        Some(ClangSupportedLanguage::Bitcode)
    } else if ext == "o"@ {
        Some(ClangSupportedLanguage::Object)
    } else {
        None
    }
}

/// The language of one input file, judged by the extension of its path.
pub open spec fn input_language(input: Seq<char>) -> Option<ClangSupportedLanguage> {
    match path_extension(input) {
        None => None,
        Some(e) => language_of_extension(e),
    }
}

/// The language of a command: C++ for `clang++`; otherwise the one language that
/// every input has, and none where there is no input, where an input has no
/// supported extension, or where the inputs mix languages.
pub open spec fn inferred_language(is_cpp: bool, inputs: Seq<Seq<char>>) -> Option<ClangSupportedLanguage> {
    if is_cpp {
        Some(ClangSupportedLanguage::CPP)
    } else if inputs.len() == 0 {
        None
    } else if forall|i: int| 0 <= i < inputs.len() ==> #[trigger] input_language(inputs[i]) == input_language(inputs[0]) {
        input_language(inputs[0])
    } else {
        None
    }
}

/// The values of the arguments of one kind, in order: outputs (`-o`) where
/// `outputs` holds, inputs otherwise.
pub open spec fn file_args(args: Seq<DbArg>, outputs: bool) -> Seq<Seq<char>>
    decreases args.len(),
{
    if args.len() == 0 {
        Seq::empty()
    } else {
        let init = file_args(args.drop_last(), outputs);
        match args.last() {
            DbArg::Output(v) => if outputs { init.push(v) } else { init },
            DbArg::Input(v) => if outputs { init } else { init.push(v) },
            _ => init,
        }
    }
}

/// The words of the command given to the analysis for these arguments.
pub open spec fn libra_args(args: Seq<DbArg>) -> Seq<Seq<char>>
    decreases args.len(),
{
    if args.len() == 0 {
        Seq::empty()
    } else {
        libra_args(args.drop_last()) + libra_words(args.last())
    }
}

/// A compiler invocation read from a compilation database.
#[derive(Debug)]
pub struct ClangCommand {
    pub is_cpp: bool,
    pub workdir: String,
    pub args: Vec<ClangArg>,
}

impl ClangCommand {
    /// The arguments of the command.
    pub open spec fn arg_models(&self) -> Seq<DbArg> {
        db_args_model(self.args@)
    }

    /// Reads a command from the remaining tokens of `stream`.
    pub fn new(is_cpp: bool, workdir: String, stream: TokenStream) -> (r: Result<Self, CommandError>)
        requires
            stream.inv(),
        ensures
            match parse_command_spec(stream.rest()) {
                Ok(args) => r matches Ok(c) && c.is_cpp == is_cpp && c.workdir@ == workdir@
                    && c.arg_models() == args,
                Err(e) => fails_with(r, e),
            },
    {
        let ghost whole = stream.rest();
        let mut tokens = stream;
        let mut args: Vec<ClangArg> = Vec::new();
        loop
            invariant
                tokens.inv(),
                whole == stream.rest(),
                parse_command_spec(whole) == match parse_command_spec(tokens.rest()) {
                    Ok(rest) => Ok(db_args_model(args@) + rest),
                    Err(e) => Err(e),
                },
            decreases tokens.rest().len(),
        {
            let ghost before = tokens.rest();
            proof {
                lemma_try_parse_consumes(before);
            }
            let next = ClangArg::try_parse(&mut tokens);
            match next {
                Err(e) => {
                    assert(parse_command_spec(before) == Err::<Seq<DbArg>, Seq<char>>(e.message@));
                    return Err(e);
                },
                Ok(None) => {
                    assert(parse_command_spec(before) == Ok::<Seq<DbArg>, Seq<char>>(Seq::empty()));
                    assert(db_args_model(args@) + Seq::<DbArg>::empty() =~= db_args_model(args@));
                    return Ok(ClangCommand { is_cpp, workdir, args });
                },
                Ok(Some(arg)) => {
                    let ghost a = arg.model();
                    let ghost prev = args@;
                    args.push(arg);
                    proof {
                        assert(db_args_model(args@) =~= db_args_model(prev) + seq![a]);
                        match parse_command_spec(tokens.rest()) {
                            Ok(rest) => {
                                assert(db_args_model(prev) + (seq![a] + rest) =~= db_args_model(args@)
                                    + rest);
                            },
                            Err(_) => {},
                        }
                    }
                },
            }
        }
    }
}


impl ClangCommand {
    /// The values of the arguments of one kind, in order (see [`file_args`]).
    fn files(&self, outputs: bool) -> (r: Vec<String>)
        ensures
            texts(r@) == file_args(self.arg_models(), outputs),
    {
        let mut out: Vec<String> = Vec::new();
        let mut i: usize = 0;
        while i < self.args.len()
            invariant
                i <= self.args@.len(),
                texts(out@) == file_args(self.arg_models().take(i as int), outputs),
            decreases self.args@.len() - i,
        {
            proof {
                let m = self.arg_models();
                assert(m.take(i + 1).drop_last() =~= m.take(i as int));
            }
            let ghost prev = out@;
            match &self.args[i] {
                ClangArg::Output(v) => {
                    if outputs {
                        out.push(v.clone());
                    }
                },
                ClangArg::Input(v) => {
                    if !outputs {
                        out.push(v.clone());
                    }
                },
                _ => {},
            }
            proof {
                assert(texts(out@) =~= file_args(self.arg_models().take(i + 1), outputs));
            }
            i = i + 1;
        }
        assert(self.arg_models().take(self.args@.len() as int) =~= self.arg_models());
        out
    }

    /// The output files of the command (`-o`), in order.
    pub fn outputs(&self) -> (r: Vec<String>)
        ensures
            texts(r@) == file_args(self.arg_models(), true),
    {
        self.files(true)
    }

    /// The input files of the command, in order.
    pub fn inputs(&self) -> (r: Vec<String>)
        ensures
            texts(r@) == file_args(self.arg_models(), false),
    {
        self.files(false)
    }

    /// The language the command compiles, where it can be told (see [`inferred_language`]).
    pub fn infer_language(&self) -> (r: Option<ClangSupportedLanguage>)
        ensures
            r == inferred_language(self.is_cpp, file_args(self.arg_models(), false)),
    {
        if self.is_cpp {
            return Some(ClangSupportedLanguage::CPP);
        }
        let inputs = self.inputs();
        let ghost ins = texts(inputs@);
        let mut inferred: Option<ClangSupportedLanguage> = None;
        let mut i: usize = 0;
        while i < inputs.len()
            invariant
                i <= inputs@.len(),
                ins == texts(inputs@),
                ins == file_args(self.arg_models(), false),
                !self.is_cpp,
                i == 0 ==> inferred.is_none(),
                i > 0 ==> inferred.is_some() && inferred == input_language(ins[0]),
                forall|j: int| 0 <= j < i ==> #[trigger] input_language(ins[j]) == input_language(ins[0]),
            decreases inputs@.len() - i,
        {
            let input = inputs[i].as_str();
            assert(input@ == ins[i as int]);
            let ext = match extension_of_path(input) {
                None => {
                    assert(input_language(ins[i as int]) != input_language(ins[0]) || i == 0);
                    return None;
                },
                Some(ext) => ext,
            };
            let e = ext.as_str();
            let lang = if str_eq(e, "c") {
                ClangSupportedLanguage::C
            } else if str_eq(e, "cc") || str_eq(e, "cpp") {
                ClangSupportedLanguage::CPP
            } else if str_eq(e, "m") {
                ClangSupportedLanguage::ObjC
            } else if str_eq(e, "mm") {
                ClangSupportedLanguage::ObjCPP
            } else if str_eq(e, "bc") || str_eq(e, "ll") {
                ClangSupportedLanguage::Bitcode
            } else if str_eq(e, "o") {
                ClangSupportedLanguage::Object
            } else {
                assert(input_language(ins[i as int]) is None);
                return None;
            };
            assert(input_language(ins[i as int]) == Some(lang));
            match inferred {
                Some(existing) => {
                    if existing != lang {
                        return None;
                    }
                },
                None => {},
            }
            inferred = Some(lang);
            i = i + 1;
        }
        inferred
    }

    /// The words of the command handed to the analysis: each argument's
    /// contribution, then `-Xclang -disable-O0-optnone`.
    pub fn gen_args_for_libra(&self) -> (r: Vec<String>)
        ensures
            texts(r@) == libra_args(self.arg_models()) + seq!["-Xclang"@, "-disable-O0-optnone"@],
    {
        let mut accumulated: Vec<String> = Vec::new();
        let mut i: usize = 0;
        while i < self.args.len()
            invariant
                i <= self.args@.len(),
                texts(accumulated@) == libra_args(self.arg_models().take(i as int)),
            decreases self.args@.len() - i,
        {
            proof {
                let m = self.arg_models();
                assert(m.take(i + 1).drop_last() =~= m.take(i as int));
            }
            self.args[i].accumulate_arg_for_libra(&mut accumulated);
            i = i + 1;
        }
        assert(self.arg_models().take(self.args@.len() as int) =~= self.arg_models());
        let ghost before = texts(accumulated@);
        accumulated.push("-Xclang".to_owned());
        accumulated.push("-disable-O0-optnone".to_owned());
        assert(texts(accumulated@) =~= before + seq!["-Xclang"@, "-disable-O0-optnone"@]);
        accumulated
    }
}


/// The text of an argument as it appears in a command.
pub open spec fn db_arg_text(a: DbArg) -> Seq<char> {
    match a {
        DbArg::ModeCompile => "-c"@,
        DbArg::Standard(v) => "-std="@ + v,
        DbArg::Define(v) => "-D"@ + v,
        DbArg::Include(v) => "-I"@ + v,
        DbArg::IncludeSysroot(v) => "-isysroot "@ + v,
        DbArg::Optimization(v) => "-O"@ + v,
        DbArg::Arch(v) => "-arch "@ + v,
        DbArg::MachineArch(v) => "-march="@ + v,
        DbArg::Debug => "-g"@,
        DbArg::Flag(k, None) => "-f"@ + k,
        DbArg::Flag(k, Some(v)) => "-f"@ + k + "="@ + v,
        DbArg::Warning(k, None) => "-W"@ + k,
        DbArg::Warning(k, Some(v)) => "-W"@ + k + "="@ + v,
        DbArg::NoWarnings => "-w"@,
        DbArg::POSIXThread => "-pthread"@,
        DbArg::Output(v) => "-o "@ + v,
        DbArg::Input(v) => v,
    }
}

/// The text of a command: the compiler name and the text of each argument,
/// separated by spaces.
pub open spec fn command_text(is_cpp: bool, args: Seq<DbArg>) -> Seq<char> {
    join_words(
        seq![
            if is_cpp {
                "clang++"@
            } else {
                "clang"@
            },
        ] + args.map_values(|a: DbArg| db_arg_text(a)),
    )
}

impl ClangArg {
    /// The text of the argument as it appears in a command.
    pub fn describe(&self) -> (r: String)
        ensures
            r@ == db_arg_text(self.model()),
    {
        match self {
            ClangArg::ModeCompile => "-c".to_owned(),
            ClangArg::Standard(v) => concat("-std=", v.as_str()),
            ClangArg::Define(v) => concat("-D", v.as_str()),
            ClangArg::Include(v) => concat("-I", v.as_str()),
            ClangArg::IncludeSysroot(v) => concat("-isysroot ", v.as_str()),
            ClangArg::Optimization(v) => concat("-O", v.as_str()),
            ClangArg::Arch(v) => concat("-arch ", v.as_str()),
            ClangArg::MachineArch(v) => concat("-march=", v.as_str()),
            ClangArg::Debug => "-g".to_owned(),
            ClangArg::Flag(k, None) => concat("-f", k.as_str()),
            ClangArg::Flag(k, Some(v)) => concat3("-f", k.as_str(), "=").concat(v.as_str()),
            ClangArg::Warning(k, None) => concat("-W", k.as_str()),
            ClangArg::Warning(k, Some(v)) => concat3("-W", k.as_str(), "=").concat(v.as_str()),
            ClangArg::NoWarnings => "-w".to_owned(),
            ClangArg::POSIXThread => "-pthread".to_owned(),
            ClangArg::Output(v) => concat("-o ", v.as_str()),
            ClangArg::Input(v) => v.clone(),
        }
    }
}

impl ClangCommand {
    /// The text of the command, as shown to users.
    pub fn describe(&self) -> (r: String)
        ensures
            r@ == command_text(self.is_cpp, self.arg_models()),
    {
        let mut words: Vec<String> = Vec::new();
        if self.is_cpp {
            words.push("clang++".to_owned());
        } else {
            words.push("clang".to_owned());
        }
        let ghost head = texts(words@);
        let mut i: usize = 0;
        while i < self.args.len()
            invariant
                i <= self.args@.len(),
                texts(words@) == head + self.arg_models().take(i as int).map_values(
                    |a: DbArg| db_arg_text(a),
                ),
            decreases self.args@.len() - i,
        {
            let t = self.args[i].describe();
            let ghost prev = texts(words@);
            words.push(t);
            proof {
                let m = self.arg_models();
                assert(m.take(i + 1).map_values(|a: DbArg| db_arg_text(a)) =~= m.take(i as int).map_values(
                    |a: DbArg| db_arg_text(a),
                ).push(db_arg_text(m[i as int])));
                assert(texts(words@) =~= prev.push(t@));
            }
            i = i + 1;
        }
        proof {
            let nm = if self.is_cpp {
                "clang++"@
            } else {
                "clang"@
            };
            assert(head =~= seq![nm]);
            assert(self.arg_models().take(self.args@.len() as int) =~= self.arg_models());
            assert(texts(words@) =~= seq![nm] + self.arg_models().map_values(|a: DbArg| db_arg_text(a)));
        }
        join_with_spaces(&words)
    }
}

} // verus!

verus! {

/// Text that does not open with a quotation mark.
pub open spec fn unquoted_start(v: Seq<char>) -> bool {
    !(v.len() > 0 && (v[0] == '"' || v[0] == '\''))
}

/// A key of a flag or warning: free of `=` and not opening with a quotation mark.
pub open spec fn plain_key(k: Seq<char>) -> bool {
    first_index_of(k, '=') is None && unquoted_start(k)
}

/// The arguments that the analysis writes as words which read back as themselves:
/// those whose words are not dropped, with values that are not quoted, keys free
/// of `=`, and a value where the flag alone would take the next word.
pub open spec fn reads_back(a: DbArg) -> bool {
    match a {
        DbArg::ModeCompile | DbArg::NoWarnings | DbArg::POSIXThread => true,
        DbArg::Standard(v) | DbArg::Define(v) | DbArg::MachineArch(v) => unquoted_start(v),
        DbArg::Include(v) | DbArg::Arch(v) | DbArg::IncludeSysroot(v) => v.len() > 0 && unquoted_start(v),
        DbArg::Flag(k, v) | DbArg::Warning(k, v) => plain_key(k) && (v matches Some(x) ==> unquoted_start(x)),
        _ => false,
    }
}


/// Unquoted text reads as itself.
proof fn lemma_unquoted_reads(v: Seq<char>, rem: Seq<Seq<char>>)
    requires
        unquoted_start(v),
    ensures
        unescape_quotes_spec(v, rem) == Ok::<(Seq<char>, Seq<Seq<char>>), Seq<char>>((v, rem)),
        expect_plain_spec(v) == Ok::<Seq<char>, Seq<char>>(v),
{
}

/// A key, or a key with `=` and a value, reads as that key and value.
proof fn lemma_key_value_reads(k: Seq<char>, v: Option<Seq<char>>, rem: Seq<Seq<char>>)
    requires
        plain_key(k),
        v matches Some(x) ==> unquoted_start(x),
    ensures
        key_value_spec(
            match v {
                Some(x) => k + "="@ + x,
                None => k,
            },
            rem,
        ) == Ok::<((Seq<char>, Option<Seq<char>>), Seq<Seq<char>>), Seq<char>>(((k, v), rem)),
{
    reveal_strlit("=");
    if let Some(x) = v {
        let item = k + "="@ + x;
        lemma_first_equals(k, x);
        assert(item.subrange(k.len() + 1 as int, item.len() as int) =~= x);
        assert(item.subrange(0, k.len() as int) =~= k);
        assert(item[0] != '"' && item[0] != '\'') by {
            if k.len() == 0 {
                assert(item[0] == '=');
            } else {
                assert(item[0] == k[0]);
            }
        }
        lemma_unquoted_reads(x, rem);
    }
}

/// A single non-empty word is read first, leaving nothing.
proof fn lemma_single_word(t: Seq<char>)
    requires
        t.len() > 0,
    ensures
        next_nonempty(seq![t]) == (Some(t), 1nat),
        seq![t].skip(1) == Seq::<Seq<char>>::empty(),
{
    assert(seq![t].skip(1) =~= Seq::<Seq<char>>::empty());
}


/// Reading the words the analysis writes for an argument gives the argument back.
#[verifier::rlimit(60)]
pub proof fn law_libra_words_read_back(a: DbArg)
    requires
        reads_back(a),
    ensures
        parse_command_spec(libra_words(a)) == Ok::<Seq<DbArg>, Seq<char>>(seq![a]),
{
    reveal_strlit("-c");
    reveal_strlit("-std=");
    reveal_strlit("-D");
    reveal_strlit("-I");
    reveal_strlit("-O");
    reveal_strlit("-arch");
    reveal_strlit("-march=");
    reveal_strlit("-g");
    reveal_strlit("--debug");
    reveal_strlit("-isysroot");
    reveal_strlit("-f");
    reveal_strlit("-W");
    reveal_strlit("-w");
    reveal_strlit("--no-warnings");
    reveal_strlit("-pthread");
    reveal_strlit("-o");
    reveal_strlit("-");
    reveal_strlit("=");
    let ws = libra_words(a);
    let empty = Seq::<Seq<char>>::empty();
    match a {
        DbArg::ModeCompile => {
            lemma_single_word("-c"@);
            lemma_word_with_prefix("-c"@, Seq::empty());
            assert("-c"@ + Seq::<char>::empty() =~= "-c"@);
        },
        DbArg::NoWarnings => {
            lemma_single_word("-w"@);
            lemma_word_with_prefix("-w"@, Seq::empty());
            assert("-w"@ + Seq::<char>::empty() =~= "-w"@);
            lemma_texts_differ_at("-w"@, "-c"@, 1);
            lemma_texts_differ_at("-w"@, "-std="@, 1);
            lemma_texts_differ_at("-w"@, "-D"@, 1);
            lemma_texts_differ_at("-w"@, "-I"@, 1);
            lemma_texts_differ_at("-w"@, "-I"@, 1);
            lemma_texts_differ_at("-w"@, "-O"@, 1);
            lemma_texts_differ_at("-w"@, "-arch"@, 1);
            lemma_texts_differ_at("-w"@, "-march="@, 1);
            lemma_texts_differ_at("-w"@, "-g"@, 1);
            lemma_texts_differ_at("-w"@, "--debug"@, 1);
            lemma_texts_differ_at("-w"@, "-isysroot"@, 1);
            lemma_texts_differ_at("-w"@, "-f"@, 1);
            lemma_texts_differ_at("-w"@, "-W"@, 1);
        },
        DbArg::POSIXThread => {
            lemma_single_word("-pthread"@);
            lemma_word_with_prefix("-pthread"@, Seq::empty());
            assert("-pthread"@ + Seq::<char>::empty() =~= "-pthread"@);
            lemma_texts_differ_at("-pthread"@, "-c"@, 1);
            lemma_texts_differ_at("-pthread"@, "-std="@, 1);
            lemma_texts_differ_at("-pthread"@, "-D"@, 1);
            lemma_texts_differ_at("-pthread"@, "-I"@, 1);
            lemma_texts_differ_at("-pthread"@, "-I"@, 1);
            lemma_texts_differ_at("-pthread"@, "-O"@, 1);
            lemma_texts_differ_at("-pthread"@, "-arch"@, 1);
            lemma_texts_differ_at("-pthread"@, "-march="@, 1);
            lemma_texts_differ_at("-pthread"@, "-g"@, 1);
            lemma_texts_differ_at("-pthread"@, "--debug"@, 1);
            lemma_texts_differ_at("-pthread"@, "-isysroot"@, 1);
            lemma_texts_differ_at("-pthread"@, "-f"@, 1);
            lemma_texts_differ_at("-pthread"@, "-W"@, 1);
            lemma_texts_differ_at("-pthread"@, "-w"@, 1);
            lemma_texts_differ_at("-pthread"@, "--no-warnings"@, 1);
        },
        DbArg::Standard(v) => {
            let t = "-std="@ + v;
            lemma_word_with_prefix("-std="@, v);
            lemma_single_word(t);
            lemma_unquoted_reads(v, empty);

            lemma_texts_differ_at(t, "-c"@, 1);
        },
        DbArg::Define(v) => {
            let t = "-D"@ + v;
            lemma_word_with_prefix("-D"@, v);
            lemma_single_word(t);
            lemma_unquoted_reads(v, empty);

            lemma_texts_differ_at(t, "-c"@, 1);
            lemma_texts_differ_at(t, "-std="@, 1);
        },
        DbArg::Include(v) => {
            let t = "-I"@ + v;
            lemma_word_with_prefix("-I"@, v);
            lemma_single_word(t);
            lemma_unquoted_reads(v, empty);
            assert(t.len() != "-I"@.len());
            lemma_texts_differ_at(t, "-c"@, 1);
            lemma_texts_differ_at(t, "-std="@, 1);
            lemma_texts_differ_at(t, "-D"@, 1);
        },
        DbArg::MachineArch(v) => {
            let t = "-march="@ + v;
            lemma_word_with_prefix("-march="@, v);
            lemma_single_word(t);
            lemma_unquoted_reads(v, empty);

            lemma_texts_differ_at(t, "-c"@, 1);
            lemma_texts_differ_at(t, "-std="@, 1);
            lemma_texts_differ_at(t, "-D"@, 1);
            lemma_texts_differ_at(t, "-I"@, 1);
            lemma_texts_differ_at(t, "-I"@, 1);
            lemma_texts_differ_at(t, "-O"@, 1);
            lemma_texts_differ_at(t, "-arch"@, 1);
        },
        DbArg::Arch(v) => {
            lemma_word_with_prefix("-arch"@, Seq::empty());
            assert("-arch"@ + Seq::<char>::empty() =~= "-arch"@);
            assert(next_nonempty(ws) == (Some("-arch"@), 1nat));
            assert(ws.skip(1) =~= seq![v]);
            lemma_single_word(v);
            lemma_unquoted_reads(v, empty);
            lemma_texts_differ_at("-arch"@, "-c"@, 1);
            lemma_texts_differ_at("-arch"@, "-std="@, 1);
            lemma_texts_differ_at("-arch"@, "-D"@, 1);
            lemma_texts_differ_at("-arch"@, "-I"@, 1);
            lemma_texts_differ_at("-arch"@, "-I"@, 1);
            lemma_texts_differ_at("-arch"@, "-O"@, 1);
        },
        DbArg::IncludeSysroot(v) => {
            lemma_word_with_prefix("-isysroot"@, Seq::empty());
            assert("-isysroot"@ + Seq::<char>::empty() =~= "-isysroot"@);
            assert(next_nonempty(ws) == (Some("-isysroot"@), 1nat));
            assert(ws.skip(1) =~= seq![v]);
            lemma_single_word(v);
            lemma_unquoted_reads(v, empty);
            lemma_texts_differ_at("-isysroot"@, "-c"@, 1);
            lemma_texts_differ_at("-isysroot"@, "-std="@, 1);
            lemma_texts_differ_at("-isysroot"@, "-D"@, 1);
            lemma_texts_differ_at("-isysroot"@, "-I"@, 1);
            lemma_texts_differ_at("-isysroot"@, "-I"@, 1);
            lemma_texts_differ_at("-isysroot"@, "-O"@, 1);
            lemma_texts_differ_at("-isysroot"@, "-arch"@, 1);
            lemma_texts_differ_at("-isysroot"@, "-march="@, 1);
            lemma_texts_differ_at("-isysroot"@, "-g"@, 1);
            lemma_texts_differ_at("-isysroot"@, "--debug"@, 1);
        },
        DbArg::Flag(k, v) => {
            let item = match v {
                Some(x) => k + "="@ + x,
                None => k,
            };
            let t = "-f"@ + item;
            assert(ws == seq![t]) by {
                if let Some(x) = v {
                    assert("-f"@ + k + "="@ + x =~= t);
                }
            }
            lemma_word_with_prefix("-f"@, item);
            lemma_single_word(t);
            lemma_key_value_reads(k, v, empty);
            lemma_texts_differ_at(t, "-c"@, 1);
            lemma_texts_differ_at(t, "-std="@, 1);
            lemma_texts_differ_at(t, "-D"@, 1);
            lemma_texts_differ_at(t, "-I"@, 1);
            lemma_texts_differ_at(t, "-I"@, 1);
            lemma_texts_differ_at(t, "-O"@, 1);
            lemma_texts_differ_at(t, "-arch"@, 1);
            lemma_texts_differ_at(t, "-march="@, 1);
            lemma_texts_differ_at(t, "-g"@, 1);
            lemma_texts_differ_at(t, "--debug"@, 1);
            lemma_texts_differ_at(t, "-isysroot"@, 1);
        },
        DbArg::Warning(k, v) => {
            let item = match v {
                Some(x) => k + "="@ + x,
                None => k,
            };
            let t = "-W"@ + item;
            assert(ws == seq![t]) by {
                if let Some(x) = v {
                    assert("-W"@ + k + "="@ + x =~= t);
                }
            }
            lemma_word_with_prefix("-W"@, item);
            lemma_single_word(t);
            lemma_key_value_reads(k, v, empty);
            lemma_texts_differ_at(t, "-c"@, 1);
            lemma_texts_differ_at(t, "-std="@, 1);
            lemma_texts_differ_at(t, "-D"@, 1);
            lemma_texts_differ_at(t, "-I"@, 1);
            lemma_texts_differ_at(t, "-I"@, 1);
            lemma_texts_differ_at(t, "-O"@, 1);
            lemma_texts_differ_at(t, "-arch"@, 1);
            lemma_texts_differ_at(t, "-march="@, 1);
            lemma_texts_differ_at(t, "-g"@, 1);
            lemma_texts_differ_at(t, "--debug"@, 1);
            lemma_texts_differ_at(t, "-isysroot"@, 1);
            lemma_texts_differ_at(t, "-f"@, 1);
        },
        _ => {},
    }
    assert(try_parse_spec(ws) == Ok::<(Option<DbArg>, Seq<Seq<char>>), Seq<char>>((Some(a), empty)));
    assert(empty.skip(0) =~= empty);
    assert(try_parse_spec(empty) == Ok::<(Option<DbArg>, Seq<Seq<char>>), Seq<char>>((None, empty)));
    assert(parse_command_spec(empty) == Ok::<Seq<DbArg>, Seq<char>>(Seq::empty()));
    assert(seq![a] + Seq::<DbArg>::empty() =~= seq![a]);
}

} // verus!

verus! {

/// The text of an argument is its words for the analysis joined with spaces,
/// wherever the analysis keeps the argument.
pub proof fn law_arg_text_joins_words(a: DbArg)
    requires
        libra_words(a).len() > 0,
    ensures
        db_arg_text(a) == join_words(libra_words(a)),
{
    reveal_strlit("-isysroot");
    reveal_strlit("-isysroot ");
    reveal_strlit("-arch");
    reveal_strlit("-arch ");
    reveal_strlit(" ");
    match a {
        DbArg::IncludeSysroot(v) => {
            let ws = seq!["-isysroot"@, v];
            assert(ws.drop_last() =~= seq!["-isysroot"@]);
            assert(join_words(seq!["-isysroot"@]) == "-isysroot"@);
            assert(ws.last() == v);
            assert(join_words(ws) == join_words(ws.drop_last()) + " "@ + ws.last());
            assert("-isysroot"@ + " "@ =~= "-isysroot "@);
            assert("-isysroot"@ + " "@ + v =~= "-isysroot "@ + v);
        },
        DbArg::Arch(v) => {
            let ws = seq!["-arch"@, v];
            assert(ws.drop_last() =~= seq!["-arch"@]);
            assert(join_words(seq!["-arch"@]) == "-arch"@);
            assert(ws.last() == v);
            assert(join_words(ws) == join_words(ws.drop_last()) + " "@ + ws.last());
            assert("-arch"@ + " "@ =~= "-arch "@);
            assert("-arch"@ + " "@ + v =~= "-arch "@ + v);
        },
        DbArg::Flag(k, Some(v)) => {
            assert("-f"@ + k + "="@ + v == "-f"@ + k + "="@ + v);
        },
        _ => {},
    }
}

} // verus!

verus! {

/// A word that is not an option reads as an input.
pub proof fn law_input_words_read(w: Seq<char>)
    requires
        w.len() > 0,
        !has_prefix(w, "-"@),
    ensures
        parse_command_spec(seq![w]) == Ok::<Seq<DbArg>, Seq<char>>(seq![DbArg::Input(w)]),
{
    let empty = Seq::<Seq<char>>::empty();
    lemma_single_word(w);
    assert(empty.skip(0) =~= empty);
    assert(try_parse_spec(empty) == Ok::<(Option<DbArg>, Seq<Seq<char>>), Seq<char>>((None, empty)));
    assert(parse_command_spec(empty) == Ok::<Seq<DbArg>, Seq<char>>(Seq::empty()));
    assert(try_parse_spec(seq![w]) == Ok::<(Option<DbArg>, Seq<Seq<char>>), Seq<char>>((Some(DbArg::Input(w)), empty)));
    assert(seq![DbArg::Input(w)] + Seq::<DbArg>::empty() =~= seq![DbArg::Input(w)]);
}

/// The options the analysis drops read as themselves: an optimization level, the
/// debug flag, and an output file.
#[verifier::rlimit(60)]
pub proof fn law_dropped_words_read(v: Seq<char>)
    requires
        unquoted_start(v),
    ensures
        parse_command_spec(seq!["-O"@ + v]) == Ok::<Seq<DbArg>, Seq<char>>(seq![DbArg::Optimization(v)]),
        parse_command_spec(seq!["-g"@]) == Ok::<Seq<DbArg>, Seq<char>>(seq![DbArg::Debug]),
        v.len() > 0 ==> parse_command_spec(seq!["-o"@, v]) == Ok::<Seq<DbArg>, Seq<char>>(seq![DbArg::Output(v)]),
{
    reveal_strlit("-");
    reveal_strlit("--debug");
    reveal_strlit("--no-warnings");
    reveal_strlit("-D");
    reveal_strlit("-I");
    reveal_strlit("-O");
    reveal_strlit("-W");
    reveal_strlit("-arch");
    reveal_strlit("-c");
    reveal_strlit("-f");
    reveal_strlit("-g");
    reveal_strlit("-isysroot");
    reveal_strlit("-march=");
    reveal_strlit("-o");
    reveal_strlit("-pthread");
    reveal_strlit("-std=");
    reveal_strlit("-w");
    let empty = Seq::<Seq<char>>::empty();
    assert(empty.skip(0) =~= empty);
    assert(try_parse_spec(empty) == Ok::<(Option<DbArg>, Seq<Seq<char>>), Seq<char>>((None, empty)));
    assert(parse_command_spec(empty) == Ok::<Seq<DbArg>, Seq<char>>(Seq::empty()));
    {
        let t = "-O"@ + v;
        lemma_word_with_prefix("-O"@, v);
        lemma_single_word(t);
        lemma_unquoted_reads(v, empty);
        lemma_texts_differ_at(t, "-c"@, 1);
        lemma_texts_differ_at(t, "-std="@, 1);
        lemma_texts_differ_at(t, "-D"@, 1);
        lemma_texts_differ_at(t, "-I"@, 1);
        lemma_texts_differ_at(t, "-I"@, 1);
        assert(seq![DbArg::Optimization(v)] + Seq::<DbArg>::empty() =~= seq![DbArg::Optimization(v)]);
    }
    {
        let t = "-g"@;
        lemma_word_with_prefix("-g"@, Seq::empty());
        assert("-g"@ + Seq::<char>::empty() =~= "-g"@);
        lemma_single_word(t);
        lemma_texts_differ_at(t, "-c"@, 1);
        lemma_texts_differ_at(t, "-std="@, 1);
        lemma_texts_differ_at(t, "-D"@, 1);
        lemma_texts_differ_at(t, "-I"@, 1);
        lemma_texts_differ_at(t, "-I"@, 1);
        lemma_texts_differ_at(t, "-O"@, 1);
        lemma_texts_differ_at(t, "-arch"@, 1);
        lemma_texts_differ_at(t, "-march="@, 1);
        assert(seq![DbArg::Debug] + Seq::<DbArg>::empty() =~= seq![DbArg::Debug]);
    }
    if v.len() > 0 {
        let t = "-o"@;
        let ws = seq!["-o"@, v];
        lemma_word_with_prefix("-o"@, Seq::empty());
        assert("-o"@ + Seq::<char>::empty() =~= "-o"@);
        assert(next_nonempty(ws) == (Some("-o"@), 1nat));
        assert(ws.skip(1) =~= seq![v]);
        lemma_single_word(v);
        lemma_unquoted_reads(v, empty);
        lemma_texts_differ_at(t, "-c"@, 1);
        lemma_texts_differ_at(t, "-std="@, 1);
        lemma_texts_differ_at(t, "-D"@, 1);
        lemma_texts_differ_at(t, "-I"@, 1);
        lemma_texts_differ_at(t, "-I"@, 1);
        lemma_texts_differ_at(t, "-O"@, 1);
        lemma_texts_differ_at(t, "-arch"@, 1);
        lemma_texts_differ_at(t, "-march="@, 1);
        lemma_texts_differ_at(t, "-g"@, 1);
        lemma_texts_differ_at(t, "--debug"@, 1);
        lemma_texts_differ_at(t, "-isysroot"@, 1);
        lemma_texts_differ_at(t, "-f"@, 1);
        lemma_texts_differ_at(t, "-W"@, 1);
        lemma_texts_differ_at(t, "-w"@, 1);
        lemma_texts_differ_at(t, "--no-warnings"@, 1);
        lemma_texts_differ_at(t, "-pthread"@, 1);
        assert(try_parse_spec(ws) == Ok::<(Option<DbArg>, Seq<Seq<char>>), Seq<char>>((Some(DbArg::Output(v)), empty)));
        assert(seq![DbArg::Output(v)] + Seq::<DbArg>::empty() =~= seq![DbArg::Output(v)]);
    }
}

} // verus!
