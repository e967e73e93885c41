use vstd::prelude::*;

use crate::text::{
    join_with_spaces, join_words, texts, lemma_first_equals, lemma_texts_differ_at, lemma_word_with_prefix,
    concat, concat3, contains_char, find_char, first_index_of, has_prefix, slice_chars, split_char,
    split_pieces, starts_with, str_eq, strip_prefix, lemma_first_index_of,
};

verus! {

/// Extension for our own command database
pub open spec fn command_extension() -> Seq<char> {
    ".command.json"@
}

/// Extension for our own library mark
pub open spec fn libmark_extension() -> Seq<char> {
    ".library.mark"@
}

/// Extension for our own command database
pub fn command_extension_str() -> (r: &'static str)
    ensures
        r@ == command_extension(),
{
    ".command.json"
}

/// Extension for our own library mark
pub fn libmark_extension_str() -> (r: &'static str)
    ensures
        r@ == libmark_extension(),
{
    ".library.mark"
}

/// Clang arguments
#[derive(Debug)]
pub enum ClangArg {
    /// -c
    ModeCompile,
    /// -std=<token>
    Standard(String),
    /// -D<key>{=<value>}
    Define(String, Option<String>),
    /// -I<token> | -I <token>
    Include(String),
    /// -isysroot <token>
    IncludeSysroot(String),
    /// -Wp,-MD
    PrepMD,
    /// -Wp,-MP
    PrepMP,
    /// -Wp,-MF
    PrepMF(String),
    /// -O<level>
    Optimization(String),
    /// -arch <token>
    Arch(String),
    /// -march=<token>
    MachineArch(String),
    /// -g | --debug
    Debug,
    /// -l<token> | -l <token>
    LibName(String),
    /// -L<token> | -L <token>
    LibPath(String),
    /// -shared | --shared
    LinkShared,
    /// -static | --static
    LinkStatic,
    /// -Wl,-rpath,<token>
    LinkRpath(String),
    /// -Wl,-soname,<token>
    LinkSoname(String),
    /// -Wl,--version-script,<token>
    LinkVersionScript(String),
    /// -fPIC % -fno-PIC
    FlagPIC(bool),
    /// -fPIE % -fno-PIE
    FlagPIE(bool),
    /// -frtti % -fno-rtti
    FlagRTTI(bool),
    /// -fexceptions % -fno-exceptions
    FlagExceptions(bool),
    /// -W<key>{=<value>}
    Warning(String, Option<String>),
    /// -w | --no-warnings
    NoWarnings,
    /// -pedantic
    Pedantic,
    /// -pthread
    POSIXThread,
    /// -print-<key>{=<value>} | --print-<key>{=<value>}
    Print(String, Option<String>),
    /// -o <token>
    Output(String),
    /// <token>
    Input(String),
}

/// The mathematical model of a [`ClangArg`]: text as character sequences.
pub enum ArgModel {
    ModeCompile,
    Standard(Seq<char>),
    Define(Seq<char>, Option<Seq<char>>),
    Include(Seq<char>),
    IncludeSysroot(Seq<char>),
    PrepMD,
    PrepMP,
    PrepMF(Seq<char>),
    Optimization(Seq<char>),
    Arch(Seq<char>),
    MachineArch(Seq<char>),
    Debug,
    LibName(Seq<char>),
    LibPath(Seq<char>),
    LinkShared,
    LinkStatic,
    LinkRpath(Seq<char>),
    LinkSoname(Seq<char>),
    LinkVersionScript(Seq<char>),
    FlagPIC(bool),
    FlagPIE(bool),
    FlagRTTI(bool),
    FlagExceptions(bool),
    Warning(Seq<char>, Option<Seq<char>>),
    NoWarnings,
    Pedantic,
    POSIXThread,
    Print(Seq<char>, Option<Seq<char>>),
    Output(Seq<char>),
    Input(Seq<char>),
}

/// The model of an optional string.
pub open spec fn opt_model(v: Option<String>) -> Option<Seq<char>> {
    match v {
        Some(s) => Some(s@),
        None => None,
    }
}

impl ClangArg {
    pub open spec fn model(&self) -> ArgModel {
        match self {
            ClangArg::ModeCompile => ArgModel::ModeCompile,
            ClangArg::Standard(v) => ArgModel::Standard(v@),
            ClangArg::Define(k, v) => ArgModel::Define(k@, opt_model(*v)),
            ClangArg::Include(v) => ArgModel::Include(v@),
            ClangArg::IncludeSysroot(v) => ArgModel::IncludeSysroot(v@),
            ClangArg::PrepMD => ArgModel::PrepMD,
            ClangArg::PrepMP => ArgModel::PrepMP,
            ClangArg::PrepMF(v) => ArgModel::PrepMF(v@),
            ClangArg::Optimization(v) => ArgModel::Optimization(v@),
            ClangArg::Arch(v) => ArgModel::Arch(v@),
            ClangArg::MachineArch(v) => ArgModel::MachineArch(v@),
            ClangArg::Debug => ArgModel::Debug,
            ClangArg::LibName(v) => ArgModel::LibName(v@),
            ClangArg::LibPath(v) => ArgModel::LibPath(v@),
            ClangArg::LinkShared => ArgModel::LinkShared,
            ClangArg::LinkStatic => ArgModel::LinkStatic,
            ClangArg::LinkRpath(v) => ArgModel::LinkRpath(v@),
            ClangArg::LinkSoname(v) => ArgModel::LinkSoname(v@),
            ClangArg::LinkVersionScript(v) => ArgModel::LinkVersionScript(v@),
            ClangArg::FlagPIC(b) => ArgModel::FlagPIC(*b),
            ClangArg::FlagPIE(b) => ArgModel::FlagPIE(*b),
            ClangArg::FlagRTTI(b) => ArgModel::FlagRTTI(*b),
            ClangArg::FlagExceptions(b) => ArgModel::FlagExceptions(*b),
            ClangArg::Warning(k, v) => ArgModel::Warning(k@, opt_model(*v)),
            ClangArg::NoWarnings => ArgModel::NoWarnings,
            ClangArg::Pedantic => ArgModel::Pedantic,
            ClangArg::POSIXThread => ArgModel::POSIXThread,
            ClangArg::Print(k, v) => ArgModel::Print(k@, opt_model(*v)),
            ClangArg::Output(v) => ArgModel::Output(v@),
            ClangArg::Input(v) => ArgModel::Input(v@),
        }
    }
}

/// The models of a sequence of arguments.
pub open spec fn args_model(v: Seq<ClangArg>) -> Seq<ArgModel> {
    v.map_values(|a: ClangArg| a.model())
}

} // verus!

verus! {

/// Splits an item at its first `=` into a key and an optional value.
pub open spec fn key_value_of(s: Seq<char>) -> (Seq<char>, Option<Seq<char>>) {
    match first_index_of(s, '=') {
        None => (s, None),
        Some(i) => (s.subrange(0, i), Some(s.subrange(i + 1, s.len() as int))),
    }
}

/// One argument built from the token that follows (`ts[1]`); two tokens consumed.
pub open spec fn with_next(ts: Seq<Seq<char>>, f: spec_fn(Seq<char>) -> ArgModel) -> Option<(Seq<ArgModel>, nat)> {
    if ts.len() >= 2 {
        Some((seq![f(ts[1])], 2))
    } else {
        None
    }
}

/// One argument from the current token alone.
pub open spec fn single(a: ArgModel) -> Option<(Seq<ArgModel>, nat)> {
    Some((seq![a], 1))
}

/// Text free of quotation marks.
pub open spec fn unquoted(s: Seq<char>) -> bool {
    first_index_of(s, '"').is_none() && first_index_of(s, '\'').is_none()
}

/// Parses the token `ts[0]` (with `ts[1..]` as the remaining stream): the arguments it
/// stands for and how many tokens it consumes, or `None` where the tool refuses the input.
pub open spec fn parse_step(ts: Seq<Seq<char>>) -> Option<(Seq<ArgModel>, nat)>
    recommends
        ts.len() > 0,
{
    let t = ts[0];
    if !has_prefix(t, "-"@) {
        single(ArgModel::Input(t))
    } else if t == "-c"@ {
        single(ArgModel::ModeCompile)
    } else if t == "-I"@ {
        with_next(ts, |v: Seq<char>| ArgModel::Include(v))
    } else if t == "-isysroot"@ {
        with_next(ts, |v: Seq<char>| ArgModel::IncludeSysroot(v))
    } else if t == "-l"@ {
        with_next(ts, |v: Seq<char>| ArgModel::LibName(v))
    } else if t == "-L"@ {
        with_next(ts, |v: Seq<char>| ArgModel::LibPath(v))
    } else if t == "-arch"@ {
        with_next(ts, |v: Seq<char>| ArgModel::Arch(v))
    } else if t == "-g"@ || t == "--debug"@ {
        single(ArgModel::Debug)
    } else if t == "-shared"@ || t == "--shared"@ {
        single(ArgModel::LinkShared)
    } else if t == "-static"@ || t == "--static"@ {
        single(ArgModel::LinkStatic)
    } else if t == "-fPIC"@ {
        single(ArgModel::FlagPIC(true))
    } else if t == "-fno-PIC"@ {
        single(ArgModel::FlagPIC(false))
    } else if t == "-fPIE"@ {
        single(ArgModel::FlagPIE(true))
    } else if t == "-fno-PIE"@ {
        single(ArgModel::FlagPIE(false))
    } else if t == "-frtti"@ {
        single(ArgModel::FlagRTTI(true))
    } else if t == "-fno-rtti"@ {
        single(ArgModel::FlagRTTI(false))
    } else if t == "-fexceptions"@ {
        single(ArgModel::FlagExceptions(true))
    } else if t == "-fno-exceptions"@ {
        single(ArgModel::FlagExceptions(false))
    } else if t == "-w"@ || t == "--no-warnings"@ {
        single(ArgModel::NoWarnings)
    } else if t == "-pedantic"@ {
        single(ArgModel::Pedantic)
    } else if t == "-pthread"@ {
        single(ArgModel::POSIXThread)
    } else if t == "-o"@ {
        with_next(ts, |v: Seq<char>| ArgModel::Output(v))
    } else if has_prefix(t, "-Wp,"@) {
        let inner = t.skip("-Wp,"@.len() as int);
        if unquoted(inner) {
            match parse_sub(split_pieces(inner, ','), false) {
                Some(args) => Some((args, 1)),
                None => None,
            }
        } else {
            None
        }
    } else if has_prefix(t, "-Wl,"@) {
        let inner = t.skip("-Wl,"@.len() as int);
        if unquoted(inner) {
            match parse_sub(split_pieces(inner, ','), true) {
                Some(args) => Some((args, 1)),
                None => None,
            }
        } else {
            None
        }
    } else if has_prefix(t, "-std="@) {
        single(ArgModel::Standard(t.skip("-std="@.len() as int)))
    } else if has_prefix(t, "-D"@) {
        single(ArgModel::Define(key_value_of(t.skip("-D"@.len() as int)).0, key_value_of(t.skip("-D"@.len() as int)).1))
    } else if has_prefix(t, "-I"@) {
        single(ArgModel::Include(t.skip("-I"@.len() as int)))
    } else if has_prefix(t, "-O"@) {
        single(ArgModel::Optimization(t.skip("-O"@.len() as int)))
    } else if has_prefix(t, "-march="@) {
        single(ArgModel::MachineArch(t.skip("-march="@.len() as int)))
    } else if has_prefix(t, "-l"@) {
        single(ArgModel::LibName(t.skip("-l"@.len() as int)))
    } else if has_prefix(t, "-L"@) {
        single(ArgModel::LibPath(t.skip("-L"@.len() as int)))
    } else if has_prefix(t, "-W"@) {
        single(ArgModel::Warning(key_value_of(t.skip("-W"@.len() as int)).0, key_value_of(t.skip("-W"@.len() as int)).1))
    } else if has_prefix(t, "-print-"@) {
        single(ArgModel::Print(key_value_of(t.skip("-print-"@.len() as int)).0, key_value_of(t.skip("-print-"@.len() as int)).1))
    } else if has_prefix(t, "--print-"@) {
        single(ArgModel::Print(key_value_of(t.skip("--print-"@.len() as int)).0, key_value_of(t.skip("--print-"@.len() as int)).1))
    } else {
        None
    }
}

/// Parses one sub-token of a `-Wp,` (preprocessor) or `-Wl,` (linker) group.
pub open spec fn parse_sub_step(ps: Seq<Seq<char>>, linker: bool) -> Option<(Seq<ArgModel>, nat)>
    recommends
        ps.len() > 0,
{
    let t = ps[0];
    if !linker {
        if t == "-MD"@ {
            single(ArgModel::PrepMD)
        } else if t == "-MP"@ {
            single(ArgModel::PrepMP)
        } else if t == "-MF"@ {
            with_next(ps, |v: Seq<char>| ArgModel::PrepMF(v))
        } else {
            None
        }
    } else {
        if t == "-rpath"@ {
            with_next(ps, |v: Seq<char>| ArgModel::LinkRpath(v))
        } else if t == "-soname"@ {
            with_next(ps, |v: Seq<char>| ArgModel::LinkSoname(v))
        } else if t == "--version-script"@ {
            with_next(ps, |v: Seq<char>| ArgModel::LinkVersionScript(v))
        } else {
            None
        }
    }
}

pub proof fn lemma_sub_step_consumes(ps: Seq<Seq<char>>, linker: bool)
    requires
        ps.len() > 0,
    ensures
        parse_sub_step(ps, linker) matches Some((_, c)) ==> 1 <= c <= ps.len(),
{
}

/// Parses all sub-tokens of a group.
pub open spec fn parse_sub(ps: Seq<Seq<char>>, linker: bool) -> Option<Seq<ArgModel>>
    decreases ps.len(),
{
    if ps.len() == 0 {
        Some(Seq::empty())
    } else {
        match parse_sub_step(ps, linker) {
            None => None,
            Some((args, c)) => {
                proof {
                    lemma_sub_step_consumes(ps, linker);
                }
                match parse_sub(ps.skip(c as int), linker) {
                    Some(rest) => Some(args + rest),
                    None => None,
                }
            },
        }
    }
}

pub proof fn lemma_step_consumes(ts: Seq<Seq<char>>)
    requires
        ts.len() > 0,
    ensures
        parse_step(ts) matches Some((_, c)) ==> 1 <= c <= ts.len(),
{
}

/// Parses a whole command line; `None` where the tool refuses it.
pub open spec fn parse_all(ts: Seq<Seq<char>>) -> Option<Seq<ArgModel>>
    decreases ts.len(),
{
    if ts.len() == 0 {
        Some(Seq::empty())
    } else {
        match parse_step(ts) {
            None => None,
            Some((args, c)) => {
                proof {
                    lemma_step_consumes(ts);
                }
                match parse_all(ts.skip(c as int)) {
                    Some(rest) => Some(args + rest),
                    None => None,
                }
            },
        }
    }
}


} // verus!

verus! {

/// The outcome of parsing one token agrees with the grammar.
pub open spec fn step_agrees(r: Option<(Vec<ClangArg>, usize)>, s: Option<(Seq<ArgModel>, nat)>) -> bool {
    match (r, s) {
        (Some((v, c)), Some((m, d))) => args_model(v@) == m && c == d,
        (None, None) => true,
        _ => false,
    }
}

/// The token after position `i`, if any.
fn next_token(tokens: &Vec<String>, i: usize) -> (r: Option<String>)
    requires
        i < tokens@.len(),
    ensures
        match r {
            Some(v) => i + 1 < tokens@.len() && v@ == tokens@[i + 1]@,
            None => i + 1 >= tokens@.len(),
        },
{
    if tokens.len() - i > 1 {
        Some(tokens[i + 1].clone())
    } else {
        None
    }
}

/// A one-argument outcome consuming `consumed` tokens.
fn one(arg: ClangArg, consumed: usize) -> (r: Option<(Vec<ClangArg>, usize)>)
    ensures
        r matches Some((v, c)) && args_model(v@) == seq![arg.model()] && c == consumed,
{
    let mut v: Vec<ClangArg> = Vec::new();
    v.push(arg);
    assert(args_model(v@) =~= seq![arg.model()]);
    Some((v, consumed))
}

impl ClangArg {
    /// Splits an item at its first `=` into a key and an optional value.
    pub fn expect_maybe_key_value(item: &str) -> (r: (String, Option<String>))
        ensures
            r.0@ == key_value_of(item@).0,
            opt_model(r.1) == key_value_of(item@).1,
    {
        match find_char(item, '=') {
            None => (item.to_owned(), None),
            Some(index) => {
                let n = item.unicode_len();
                (slice_chars(item, 0, index), Some(slice_chars(item, index + 1, n)))
            },
        }
    }

    /// Parses one sub-token of a `-Wp,` or `-Wl,` group, at position `i` of `pieces`.
    fn parse_group_token(pieces: &Vec<String>, i: usize, linker: bool) -> (r: Option<
        (Vec<ClangArg>, usize),
    >)
        requires
            i < pieces@.len(),
        ensures
            step_agrees(r, parse_sub_step(texts(pieces@).skip(i as int), linker)),
    {
        let ghost ps = texts(pieces@).skip(i as int);
        let t = pieces[i].as_str();
        assert(ps[0] == t@);
        if !linker {
            if str_eq(t, "-MD") {
                return one(ClangArg::PrepMD, 1);
            }
            if str_eq(t, "-MP") {
                return one(ClangArg::PrepMP, 1);
            }
            if str_eq(t, "-MF") {
                return match next_token(pieces, i) {
                    Some(v) => {
                        assert(ps[1] == v@);
                        one(ClangArg::PrepMF(v), 2)
                    },
                    None => None,
                };
            }
            None
        } else {
            if str_eq(t, "-rpath") {
                return match next_token(pieces, i) {
                    Some(v) => {
                        assert(ps[1] == v@);
                        one(ClangArg::LinkRpath(v), 2)
                    },
                    None => None,
                };
            }
            if str_eq(t, "-soname") {
                return match next_token(pieces, i) {
                    Some(v) => {
                        assert(ps[1] == v@);
                        one(ClangArg::LinkSoname(v), 2)
                    },
                    None => None,
                };
            }
            if str_eq(t, "--version-script") {
                return match next_token(pieces, i) {
                    Some(v) => {
                        assert(ps[1] == v@);
                        one(ClangArg::LinkVersionScript(v), 2)
                    },
                    None => None,
                };
            }
            None
        }
    }

    /// Parses a whole `-Wp,` or `-Wl,` group.
    fn parse_group(inner: &str, linker: bool) -> (r: Option<Vec<ClangArg>>)
        ensures
            r.is_some() ==> parse_sub(split_pieces(inner@, ','), linker) == Some(
                args_model(r->0@),
            ),
            r.is_none() ==> parse_sub(split_pieces(inner@, ','), linker).is_none(),
    {
        let pieces = split_char(inner, ',');
        let ghost all = split_pieces(inner@, ',');
        assert(texts(pieces@) =~= all);
        let mut args: Vec<ClangArg> = Vec::new();
        let mut i: usize = 0;
        assert(all.skip(0) =~= all);
        assert(args_model(args@) =~= Seq::<ArgModel>::empty());
        while i < pieces.len()
            invariant
                i <= pieces@.len(),
                texts(pieces@) == all,
                all == split_pieces(inner@, ','),
                parse_sub(all, linker) == match parse_sub(all.skip(i as int), linker) {
                    Some(rest) => Some(args_model(args@) + rest),
                    None => None::<Seq<ArgModel>>,
                },
            decreases pieces@.len() - i,
        {
            let ghost before = args@;
            match Self::parse_group_token(&pieces, i, linker) {
                None => {
                    assert(parse_sub(all.skip(i as int), linker).is_none());
                    assert(parse_sub(all, linker).is_none());
                    return None;
                },
                Some((found, c)) => {
                    proof {
                        lemma_sub_step_consumes(all.skip(i as int), linker);
                        assert(all.skip(i as int).skip(c as int) =~= all.skip(i + c));
                    }
                    let mut k: usize = 0;
                    while k < found.len()
                        invariant
                            k <= found@.len(),
                            args_model(args@) == args_model(before) + args_model(found@).take(k as int),
                        decreases found@.len() - k,
                    {
                        let ghost prev = args@;
                        args.push(found[k].duplicate());
                        proof {
                            assert(args_model(found@).take(k + 1) =~= args_model(found@).take(k as int).push(found@[k as int].model()));
                            assert(args_model(args@) =~= args_model(prev).push(found@[k as int].model()));
                        }
                        k = k + 1;
                    }
                    proof {
                        assert(args_model(found@).take(found@.len() as int) =~= args_model(found@));
                        assert(args_model(before) + (args_model(found@) + parse_sub(all.skip(i + c), linker)->0) =~= args_model(args@) + parse_sub(all.skip(i + c), linker)->0);
                    }
                    i = i + c;
                },
            }
        }
        proof {
            assert(all.skip(i as int).len() == 0);
            assert(args_model(args@) + Seq::<ArgModel>::empty() =~= args_model(args@));
        }
        Some(args)
    }

    /// Parses the token at position `i` of `tokens` (later tokens are the stream):
    /// the arguments it stands for and how many tokens it consumes, or `None` where
    /// the tool refuses the input.
    fn parse(tokens: &Vec<String>, i: usize) -> (r: Option<(Vec<ClangArg>, usize)>)
        requires
            i < tokens@.len(),
        ensures
            step_agrees(r, parse_step(texts(tokens@).skip(i as int))),
    {
        let ghost ts = texts(tokens@).skip(i as int);
        let token = tokens[i].as_str();
        assert(ts[0] == token@);
        if !starts_with(token, "-") {
            return one(ClangArg::Input(token.to_owned()), 1);
        }
        if str_eq(token, "-c") {
            return one(ClangArg::ModeCompile, 1);
        }
        if str_eq(token, "-I") {
            return match next_token(tokens, i) {
                Some(v) => {
                    assert(ts[1] == v@);
                    one(ClangArg::Include(v), 2)
                },
                None => None,
            };
        }
        if str_eq(token, "-isysroot") {
            return match next_token(tokens, i) {
                Some(v) => {
                    assert(ts[1] == v@);
                    one(ClangArg::IncludeSysroot(v), 2)
                },
                None => None,
            };
        }
        if str_eq(token, "-l") {
            return match next_token(tokens, i) {
                Some(v) => {
                    assert(ts[1] == v@);
                    one(ClangArg::LibName(v), 2)
                },
                None => None,
            };
        }
        if str_eq(token, "-L") {
            return match next_token(tokens, i) {
                Some(v) => {
                    assert(ts[1] == v@);
                    one(ClangArg::LibPath(v), 2)
                },
                None => None,
            };
        }
        if str_eq(token, "-arch") {
            return match next_token(tokens, i) {
                Some(v) => {
                    assert(ts[1] == v@);
                    one(ClangArg::Arch(v), 2)
                },
                None => None,
            };
        }
        if str_eq(token, "-g") || str_eq(token, "--debug") {
            return one(ClangArg::Debug, 1);
        }
        if str_eq(token, "-shared") || str_eq(token, "--shared") {
            return one(ClangArg::LinkShared, 1);
        }
        if str_eq(token, "-static") || str_eq(token, "--static") {
            return one(ClangArg::LinkStatic, 1);
        }
        if str_eq(token, "-fPIC") {
            return one(ClangArg::FlagPIC(true), 1);
        }
        if str_eq(token, "-fno-PIC") {
            return one(ClangArg::FlagPIC(false), 1);
        }
        if str_eq(token, "-fPIE") {
            return one(ClangArg::FlagPIE(true), 1);
        }
        if str_eq(token, "-fno-PIE") {
            return one(ClangArg::FlagPIE(false), 1);
        }
        if str_eq(token, "-frtti") {
            return one(ClangArg::FlagRTTI(true), 1);
        }
        if str_eq(token, "-fno-rtti") {
            return one(ClangArg::FlagRTTI(false), 1);
        }
        if str_eq(token, "-fexceptions") {
            return one(ClangArg::FlagExceptions(true), 1);
        }
        if str_eq(token, "-fno-exceptions") {
            return one(ClangArg::FlagExceptions(false), 1);
        }
        if str_eq(token, "-w") || str_eq(token, "--no-warnings") {
            return one(ClangArg::NoWarnings, 1);
        }
        if str_eq(token, "-pedantic") {
            return one(ClangArg::Pedantic, 1);
        }
        if str_eq(token, "-pthread") {
            return one(ClangArg::POSIXThread, 1);
        }
        if str_eq(token, "-o") {
            return match next_token(tokens, i) {
                Some(v) => {
                    assert(ts[1] == v@);
                    one(ClangArg::Output(v), 2)
                },
                None => None,
            };
        }
        // preprocessor
        if let Some(inner) = strip_prefix(token, "-Wp,") {
            if contains_char(inner.as_str(), '"') || contains_char(inner.as_str(), '\'') {
                return None;
            }
            return match Self::parse_group(inner.as_str(), false) {
                Some(args) => Some((args, 1)),
                None => None,
            };
        }
        // linker
        if let Some(inner) = strip_prefix(token, "-Wl,") {
            if contains_char(inner.as_str(), '"') || contains_char(inner.as_str(), '\'') {
                return None;
            }
            return match Self::parse_group(inner.as_str(), true) {
                Some(args) => Some((args, 1)),
                None => None,
            };
        }
        // normal
        if let Some(inner) = strip_prefix(token, "-std=") {
            return one(ClangArg::Standard(inner), 1);
        }
        if let Some(inner) = strip_prefix(token, "-D") {
            let (k, v) = Self::expect_maybe_key_value(inner.as_str());
            return one(ClangArg::Define(k, v), 1);
        }
        if let Some(inner) = strip_prefix(token, "-I") {
            return one(ClangArg::Include(inner), 1);
        }
        if let Some(inner) = strip_prefix(token, "-O") {
            return one(ClangArg::Optimization(inner), 1);
        }
        if let Some(inner) = strip_prefix(token, "-march=") {
            return one(ClangArg::MachineArch(inner), 1);
        }
        if let Some(inner) = strip_prefix(token, "-l") {
            return one(ClangArg::LibName(inner), 1);
        }
        if let Some(inner) = strip_prefix(token, "-L") {
            return one(ClangArg::LibPath(inner), 1);
        }
        if let Some(inner) = strip_prefix(token, "-W") {
            let (k, v) = Self::expect_maybe_key_value(inner.as_str());
            return one(ClangArg::Warning(k, v), 1);
        }
        if let Some(inner) = strip_prefix(token, "-print-") {
            let (k, v) = Self::expect_maybe_key_value(inner.as_str());
            return one(ClangArg::Print(k, v), 1);
        }
        if let Some(inner) = strip_prefix(token, "--print-") {
            let (k, v) = Self::expect_maybe_key_value(inner.as_str());
            return one(ClangArg::Print(k, v), 1);
        }
        None
    }

    /// A copy of the argument.
    pub fn duplicate(&self) -> (r: ClangArg)
        ensures
            r.model() == self.model(),
    {
        match self {
            ClangArg::ModeCompile => ClangArg::ModeCompile,
            ClangArg::Standard(v) => ClangArg::Standard(v.clone()),
            ClangArg::Define(k, v) => ClangArg::Define(k.clone(), v.clone()),
            ClangArg::Include(v) => ClangArg::Include(v.clone()),
            ClangArg::IncludeSysroot(v) => ClangArg::IncludeSysroot(v.clone()),
            ClangArg::PrepMD => ClangArg::PrepMD,
            ClangArg::PrepMP => ClangArg::PrepMP,
            ClangArg::PrepMF(v) => ClangArg::PrepMF(v.clone()),
            ClangArg::Optimization(v) => ClangArg::Optimization(v.clone()),
            ClangArg::Arch(v) => ClangArg::Arch(v.clone()),
            ClangArg::MachineArch(v) => ClangArg::MachineArch(v.clone()),
            ClangArg::Debug => ClangArg::Debug,
            ClangArg::LibName(v) => ClangArg::LibName(v.clone()),
            ClangArg::LibPath(v) => ClangArg::LibPath(v.clone()),
            ClangArg::LinkShared => ClangArg::LinkShared,
            ClangArg::LinkStatic => ClangArg::LinkStatic,
            ClangArg::LinkRpath(v) => ClangArg::LinkRpath(v.clone()),
            ClangArg::LinkSoname(v) => ClangArg::LinkSoname(v.clone()),
            ClangArg::LinkVersionScript(v) => ClangArg::LinkVersionScript(v.clone()),
            ClangArg::FlagPIC(b) => ClangArg::FlagPIC(*b),
            ClangArg::FlagPIE(b) => ClangArg::FlagPIE(*b),
            ClangArg::FlagRTTI(b) => ClangArg::FlagRTTI(*b),
            ClangArg::FlagExceptions(b) => ClangArg::FlagExceptions(*b),
            ClangArg::Warning(k, v) => ClangArg::Warning(k.clone(), v.clone()),
            ClangArg::NoWarnings => ClangArg::NoWarnings,
            ClangArg::Pedantic => ClangArg::Pedantic,
            ClangArg::POSIXThread => ClangArg::POSIXThread,
            ClangArg::Print(k, v) => ClangArg::Print(k.clone(), v.clone()),
            ClangArg::Output(v) => ClangArg::Output(v.clone()),
            ClangArg::Input(v) => ClangArg::Input(v.clone()),
        }
    }
}

} // verus!

verus! {

/// The command-line words an argument is written as.
pub open spec fn arg_words(a: ArgModel) -> Seq<Seq<char>> {
    match a {
        ArgModel::ModeCompile => seq!["-c"@],
        ArgModel::Standard(val) => seq!["-std="@ + val],
        ArgModel::Define(key, None) => seq!["-D"@ + key],
        ArgModel::Define(key, Some(val)) => seq!["-D"@ + key + "="@ + val],
        ArgModel::Include(val) => seq!["-I"@ + val],
        ArgModel::IncludeSysroot(val) => seq!["-isysroot"@, val],
        ArgModel::PrepMD => seq!["-Wp,-MD"@],
        ArgModel::PrepMP => seq!["-Wp,-MP"@],
        ArgModel::PrepMF(val) => seq!["-Wp,-MF,"@ + val],
        ArgModel::Optimization(val) => seq!["-O"@ + val],
        ArgModel::Arch(val) => seq!["-arch"@, val],
        ArgModel::MachineArch(val) => seq!["-march="@ + val],
        ArgModel::Debug => seq!["-g"@],
        ArgModel::LibName(val) => seq!["-l"@ + val],
        ArgModel::LibPath(val) => seq!["-L"@ + val],
        ArgModel::LinkShared => seq!["-shared"@],
        ArgModel::LinkStatic => seq!["-static"@],
        ArgModel::LinkRpath(val) => seq!["-Wl,-rpath,"@ + val],
        ArgModel::LinkSoname(val) => seq!["-Wl,-soname,"@ + val],
        ArgModel::LinkVersionScript(val) => seq!["-Wl,--version-script,"@ + val],
        ArgModel::FlagPIC(true) => seq!["-fPIC"@],
        ArgModel::FlagPIC(false) => seq!["-fno-PIC"@],
        ArgModel::FlagPIE(true) => seq!["-fPIE"@],
        ArgModel::FlagPIE(false) => seq!["-fno-PIE"@],
        ArgModel::FlagRTTI(true) => seq!["-frtti"@],
        ArgModel::FlagRTTI(false) => seq!["-fno-rtti"@],
        ArgModel::FlagExceptions(true) => seq!["-fexceptions"@],
        ArgModel::FlagExceptions(false) => seq!["-fno-exceptions"@],
        ArgModel::Warning(key, None) => seq!["-W"@ + key],
        ArgModel::Warning(key, Some(val)) => seq!["-W"@ + key + "="@ + val],
        ArgModel::NoWarnings => seq!["-w"@],
        ArgModel::Pedantic => seq!["-pedantic"@],
        ArgModel::POSIXThread => seq!["-pthread"@],
        ArgModel::Print(key, None) => seq!["-print-"@ + key],
        ArgModel::Print(key, Some(val)) => seq!["-print-"@ + key + "="@ + val],
        ArgModel::Output(val) => seq!["-o"@, val],
        ArgModel::Input(val) => seq!["unexpected input "@ + val],
    }
}


/// All words of a sequence of arguments, in order.
pub open spec fn all_words(args: Seq<ArgModel>) -> Seq<Seq<char>>
    decreases args.len(),
{
    if args.len() == 0 {
        Seq::empty()
    } else {
        all_words(args.drop_last()) + arg_words(args.last())
    }
}

} // verus!

verus! {

impl ClangArg {
    /// The text of the argument: its words separated by spaces.
    pub fn describe(&self) -> (r: String)
        ensures
            r@ == join_words(arg_words(self.model())),
    {
        let words = self.as_args();
        join_with_spaces(&words)
    }
}

impl ClangArg {
    /// The command-line words this argument is written as.
    pub fn as_args(&self) -> (r: Vec<String>)
        ensures
            texts(r@) == arg_words(self.model()),
    {
        let mut out: Vec<String> = Vec::new();
        match self {
            ClangArg::ModeCompile => {
                out.push("-c".to_owned());
            },
            ClangArg::Standard(val) => {
                out.push(concat("-std=", val.as_str()));
            },
            ClangArg::Define(key, None) => {
                out.push(concat("-D", key.as_str()));
            },
            ClangArg::Define(key, Some(val)) => {
                let mut s = concat("-D", key.as_str());
                s.append("=");
                s.append(val.as_str());
                out.push(s);
            },
            ClangArg::Include(val) => {
                out.push(concat("-I", val.as_str()));
            },
            ClangArg::IncludeSysroot(val) => {
                out.push("-isysroot".to_owned());
                out.push(val.clone());
            },
            ClangArg::PrepMD => {
                out.push("-Wp,-MD".to_owned());
            },
            ClangArg::PrepMP => {
                out.push("-Wp,-MP".to_owned());
            },
            ClangArg::PrepMF(val) => {
                out.push(concat("-Wp,-MF,", val.as_str()));
            },
            ClangArg::Optimization(val) => {
                out.push(concat("-O", val.as_str()));
            },
            ClangArg::Arch(val) => {
                out.push("-arch".to_owned());
                out.push(val.clone());
            },
            ClangArg::MachineArch(val) => {
                out.push(concat("-march=", val.as_str()));
            },
            ClangArg::Debug => {
                out.push("-g".to_owned());
            },
            ClangArg::LibName(val) => {
                out.push(concat("-l", val.as_str()));
            },
            ClangArg::LibPath(val) => {
                out.push(concat("-L", val.as_str()));
            },
            ClangArg::LinkShared => {
                out.push("-shared".to_owned());
            },
            ClangArg::LinkStatic => {
                out.push("-static".to_owned());
            },
            ClangArg::LinkRpath(val) => {
                out.push(concat("-Wl,-rpath,", val.as_str()));
            },
            ClangArg::LinkSoname(val) => {
                out.push(concat("-Wl,-soname,", val.as_str()));
            },
            ClangArg::LinkVersionScript(val) => {
                out.push(concat("-Wl,--version-script,", val.as_str()));
            },
            ClangArg::FlagPIC(true) => {
                out.push("-fPIC".to_owned());
            },
            ClangArg::FlagPIC(false) => {
                out.push("-fno-PIC".to_owned());
            },
            ClangArg::FlagPIE(true) => {
                out.push("-fPIE".to_owned());
            },
            ClangArg::FlagPIE(false) => {
                out.push("-fno-PIE".to_owned());
            },
            ClangArg::FlagRTTI(true) => {
                out.push("-frtti".to_owned());
            },
            ClangArg::FlagRTTI(false) => {
                out.push("-fno-rtti".to_owned());
            },
            ClangArg::FlagExceptions(true) => {
                out.push("-fexceptions".to_owned());
            },
            ClangArg::FlagExceptions(false) => {
                out.push("-fno-exceptions".to_owned());
            },
            ClangArg::Warning(key, None) => {
                out.push(concat("-W", key.as_str()));
            },
            ClangArg::Warning(key, Some(val)) => {
                let mut s = concat("-W", key.as_str());
                s.append("=");
                s.append(val.as_str());
                out.push(s);
            },
            ClangArg::NoWarnings => {
                out.push("-w".to_owned());
            },
            ClangArg::Pedantic => {
                out.push("-pedantic".to_owned());
            },
            ClangArg::POSIXThread => {
                out.push("-pthread".to_owned());
            },
            ClangArg::Print(key, None) => {
                out.push(concat("-print-", key.as_str()));
            },
            ClangArg::Print(key, Some(val)) => {
                let mut s = concat("-print-", key.as_str());
                s.append("=");
                s.append(val.as_str());
                out.push(s);
            },
            ClangArg::Output(val) => {
                out.push("-o".to_owned());
                out.push(val.clone());
            },
            ClangArg::Input(val) => {
                out.push(concat("unexpected input ", val.as_str()));
            },
        }
        proof {
            assert(texts(out@) =~= arg_words(self.model()));
        }
        out
    }
}

} // verus!

verus! {

/// Number of `-o` arguments.
pub open spec fn output_count(args: Seq<ArgModel>) -> nat
    decreases args.len(),
{
    if args.len() == 0 {
        0
    } else {
        output_count(args.drop_last()) + if args.last() is Output {
            1nat
        } else {
            0nat
        }
    }
}

/// The value of the last `-o` argument, if any.
pub open spec fn last_output(args: Seq<ArgModel>) -> Option<Seq<char>>
    decreases args.len(),
{
    if args.len() == 0 {
        None
    } else {
        match args.last() {
            ArgModel::Output(v) => Some(v),
            _ => last_output(args.drop_last()),
        }
    }
}

impl ClangArg {
    /// Parses a whole command line, or `None` where the tool refuses it
    /// (an unknown option, a missing operand, or quotation marks inside `-Wp,`/`-Wl,`).
    pub fn try_collect(tokens: &Vec<String>) -> (r: Option<Vec<ClangArg>>)
        ensures
            r.is_some() ==> parse_all(texts(tokens@)) == Some(args_model(r->0@)),
            r.is_none() ==> parse_all(texts(tokens@)).is_none(),
    {
        let ghost all = texts(tokens@);
        let mut args: Vec<ClangArg> = Vec::new();
        let mut i: usize = 0;
        assert(all.skip(0) =~= all);
        assert(args_model(args@) =~= Seq::<ArgModel>::empty());
        while i < tokens.len()
            invariant
                i <= tokens@.len(),
                all == texts(tokens@),
                parse_all(all) == match parse_all(all.skip(i as int)) {
                    Some(rest) => Some(args_model(args@) + rest),
                    None => None::<Seq<ArgModel>>,
                },
            decreases tokens@.len() - i,
        {
            let ghost before = args@;
            match Self::parse(tokens, i) {
                None => {
                    assert(parse_all(all.skip(i as int)).is_none());
                    return None;
                },
                Some((found, c)) => {
                    proof {
                        lemma_step_consumes(all.skip(i as int));
                        assert(all.skip(i as int).skip(c as int) =~= all.skip(i + c));
                    }
                    let mut k: usize = 0;
                    while k < found.len()
                        invariant
                            k <= found@.len(),
                            args_model(args@) == args_model(before) + args_model(found@).take(
                                k as int,
                            ),
                        decreases found@.len() - k,
                    {
                        let ghost prev = args@;
                        args.push(found[k].duplicate());
                        proof {
                            assert(args_model(found@).take(k + 1) =~= args_model(found@).take(
                                k as int,
                            ).push(found@[k as int].model()));
                            assert(args_model(args@) =~= args_model(prev).push(
                                found@[k as int].model(),
                            ));
                        }
                        k = k + 1;
                    }
                    proof {
                        assert(args_model(found@).take(found@.len() as int) =~= args_model(
                            found@,
                        ));
                        assert(args_model(before) + (args_model(found@) + parse_all(
                            all.skip(i + c),
                        )->0) =~= args_model(args@) + parse_all(all.skip(i + c))->0);
                    }
                    i = i + c;
                },
            }
        }
        proof {
            assert(all.skip(i as int).len() == 0);
            assert(args_model(args@) + Seq::<ArgModel>::empty() =~= args_model(args@));
        }
        Some(args)
    }

    /// Parses a whole command line the tool accepts.
    pub fn collect(tokens: &Vec<String>) -> (r: Vec<ClangArg>)
        requires
            parse_all(texts(tokens@)).is_some(),
        ensures
            parse_all(texts(tokens@)) == Some(args_model(r@)),
    {
        Self::try_collect(tokens).unwrap()
    }
}

/// Clang invocation
#[derive(Debug)]
pub struct ClangInvocation {
    pub cwd: String,
    pub cxx: bool,
    pub args: Vec<ClangArg>,
}

/// The text of an invocation: the compiler name followed by every argument word.
pub open spec fn invocation_text(cxx: bool, args: Seq<ArgModel>) -> Seq<char> {
    (if cxx {
        "clang++"@
    } else {
        "clang"@
    }) + " "@ + join_words(all_words(args))
}

impl ClangInvocation {
    /// The text of the invocation, as shown to users.
    pub fn describe(&self) -> (r: String)
        ensures
            r@ == invocation_text(self.cxx, args_model(self.args@)),
    {
        let mut words: Vec<String> = Vec::new();
        let mut i: usize = 0;
        assert(args_model(self.args@).take(0) =~= Seq::<ArgModel>::empty());
        while i < self.args.len()
            invariant
                i <= self.args@.len(),
                texts(words@) == all_words(args_model(self.args@).take(i as int)),
            decreases self.args@.len() - i,
        {
            let more = self.args[i].as_args();
            let ghost before = words@;
            let mut k: usize = 0;
            while k < more.len()
                invariant
                    k <= more@.len(),
                    texts(words@) == texts(before) + texts(more@).take(k as int),
                decreases more@.len() - k,
            {
                let ghost prev = words@;
                words.push(more[k].clone());
                proof {
                    assert(texts(more@).take(k + 1) =~= texts(more@).take(k as int).push(
                        more@[k as int]@,
                    ));
                    assert(texts(words@) =~= texts(prev).push(more@[k as int]@));
                }
                k = k + 1;
            }
            proof {
                assert(texts(more@).take(more@.len() as int) =~= texts(more@));
                let m = args_model(self.args@);
                assert(m.take(i + 1).drop_last() =~= m.take(i as int));
                assert(m.take(i + 1).last() == self.args@[i as int].model());
            }
            i = i + 1;
        }
        assert(args_model(self.args@).take(self.args@.len() as int) =~= args_model(self.args@));
        let joined = join_with_spaces(&words);
        let name = if self.cxx {
            "clang++"
        } else {
            "clang"
        };
        concat3(name, " ", joined.as_str())
    }
}


/// The path of the command record written for an invocation: the single output
/// followed by the command-record extension, or `None` without an output.
pub fn command_record_path(args: &Vec<ClangArg>) -> (r: Option<String>)
    requires
        output_count(args_model(args@)) <= 1,
    ensures
        match last_output(args_model(args@)) {
            Some(out) => r matches Some(p) && p@ == out + command_extension(),
            None => r.is_none(),
        },
{
    let mut output: Option<String> = None;
    let mut i: usize = 0;
    while i < args.len()
        invariant
            i <= args@.len(),
            match last_output(args_model(args@).take(i as int)) {
                Some(out) => output matches Some(p) && p@ == out,
                None => output.is_none(),
            },
        decreases args@.len() - i,
    {
        proof {
            let m = args_model(args@);
            assert(m.take(i + 1).drop_last() =~= m.take(i as int));
            assert(m.take(i + 1).last() == args@[i as int].model());
        }
        if let ClangArg::Output(out) = &args[i] {
            output = Some(out.clone());
        }
        i = i + 1;
    }
    assert(args_model(args@).take(args@.len() as int) =~= args_model(args@));
    match output {
        None => None,
        Some(out) => Some(concat(out.as_str(), command_extension_str())),
    }
}

} // verus!


verus! {

/// Collecting the words of an output argument gives the argument back.
pub proof fn law_collect_undoes_output_words(v: Seq<char>)
    ensures
        parse_all(arg_words(ArgModel::Output(v))) == Some(seq![ArgModel::Output(v)]),
{
    reveal_strlit("-");
    reveal_strlit("-o");
    reveal_strlit("-c");
    reveal_strlit("-I");
    reveal_strlit("-isysroot");
    reveal_strlit("-l");
    reveal_strlit("-L");
    reveal_strlit("-arch");
    reveal_strlit("-g");
    reveal_strlit("--debug");
    reveal_strlit("-shared");
    reveal_strlit("--shared");
    reveal_strlit("-static");
    reveal_strlit("--static");
    reveal_strlit("-fPIC");
    reveal_strlit("-fno-PIC");
    reveal_strlit("-fPIE");
    reveal_strlit("-fno-PIE");
    reveal_strlit("-frtti");
    reveal_strlit("-fno-rtti");
    reveal_strlit("-fexceptions");
    reveal_strlit("-fno-exceptions");
    reveal_strlit("-w");
    reveal_strlit("--no-warnings");
    reveal_strlit("-pedantic");
    reveal_strlit("-pthread");
    assert("-o"@[1] == 'o');
    assert("-c"@[1] == 'c');
    assert("-I"@[1] == 'I');
    assert("-l"@[1] == 'l');
    assert("-L"@[1] == 'L');
    assert("-g"@[1] == 'g');
    assert("-w"@[1] == 'w');
    let ts = arg_words(ArgModel::Output(v));
    assert(ts[0] == "-o"@);
    assert(ts[0].subrange(0, 1) =~= "-"@);
    lemma_step_consumes(ts);
    assert(parse_step(ts) == Some((seq![ArgModel::Output(v)], 2nat)));
    assert(ts.skip(2) =~= Seq::<Seq<char>>::empty());
    assert(parse_all(ts.skip(2)) == Some(Seq::<ArgModel>::empty()));
    assert(seq![ArgModel::Output(v)] + Seq::<ArgModel>::empty() =~= seq![ArgModel::Output(v)]);
    assert(parse_all(ts) == Some(seq![ArgModel::Output(v)] + Seq::<ArgModel>::empty()));
}

} // verus!

verus! {

/// The arguments whose words read back as themselves: the fixed flags, the flags
/// followed by a word, and the flags with a value attached (a value where the
/// flag alone would take the next word).
pub open spec fn plain_flag(a: ArgModel) -> bool {
    match a {
        ArgModel::ModeCompile | ArgModel::Debug | ArgModel::LinkShared | ArgModel::LinkStatic | ArgModel::FlagPIC(_)
        | ArgModel::FlagPIE(_) | ArgModel::FlagRTTI(_) | ArgModel::FlagExceptions(_) | ArgModel::NoWarnings
        | ArgModel::Pedantic | ArgModel::POSIXThread | ArgModel::Arch(_) | ArgModel::IncludeSysroot(_)
        | ArgModel::Output(_) | ArgModel::Standard(_) | ArgModel::Optimization(_) | ArgModel::MachineArch(_) => true,
        ArgModel::Include(v) | ArgModel::LibName(v) | ArgModel::LibPath(v) => v.len() > 0,
        _ => false,
    }
}

/// Collecting the words of an argument gives the argument back.
#[verifier::rlimit(80)]
pub proof fn law_collect_undoes_words(a: ArgModel)
    requires
        plain_flag(a),
    ensures
        parse_all(arg_words(a)) == Some(seq![a]),
{
    reveal_strlit("-");
    reveal_strlit("--debug");
    reveal_strlit("--no-warnings");
    reveal_strlit("--print-");
    reveal_strlit("--shared");
    reveal_strlit("--static");
    reveal_strlit("-D");
    reveal_strlit("-I");
    reveal_strlit("-L");
    reveal_strlit("-O");
    reveal_strlit("-W");
    reveal_strlit("-Wl,");
    reveal_strlit("-Wp,");
    reveal_strlit("-arch");
    reveal_strlit("-c");
    reveal_strlit("-fPIC");
    reveal_strlit("-fPIE");
    reveal_strlit("-fexceptions");
    reveal_strlit("-fno-PIC");
    reveal_strlit("-fno-PIE");
    reveal_strlit("-fno-exceptions");
    reveal_strlit("-fno-rtti");
    reveal_strlit("-frtti");
    reveal_strlit("-g");
    reveal_strlit("-isysroot");
    reveal_strlit("-l");
    reveal_strlit("-march=");
    reveal_strlit("-o");
    reveal_strlit("-pedantic");
    reveal_strlit("-print-");
    reveal_strlit("-pthread");
    reveal_strlit("-shared");
    reveal_strlit("-static");
    reveal_strlit("-std=");
    reveal_strlit("-w");
    let ts = arg_words(a);
    match a {
        ArgModel::ModeCompile => {
            assert(ts[0] == "-c"@);
            assert(ts[0].subrange(0, 1) =~= "-"@);

        },
        ArgModel::Debug => {
            assert(ts[0] == "-g"@);
            assert(ts[0].subrange(0, 1) =~= "-"@);
            lemma_texts_differ_at("-g"@, "-c"@, 1);
            lemma_texts_differ_at("-g"@, "-I"@, 1);
            lemma_texts_differ_at("-g"@, "-isysroot"@, 1);
            lemma_texts_differ_at("-g"@, "-l"@, 1);
            lemma_texts_differ_at("-g"@, "-L"@, 1);
            lemma_texts_differ_at("-g"@, "-arch"@, 1);
        },
        ArgModel::LinkShared => {
            assert(ts[0] == "-shared"@);
            assert(ts[0].subrange(0, 1) =~= "-"@);
            lemma_texts_differ_at("-shared"@, "-c"@, 1);
            lemma_texts_differ_at("-shared"@, "-I"@, 1);
            lemma_texts_differ_at("-shared"@, "-isysroot"@, 1);
            lemma_texts_differ_at("-shared"@, "-l"@, 1);
            lemma_texts_differ_at("-shared"@, "-L"@, 1);
            lemma_texts_differ_at("-shared"@, "-arch"@, 1);
            lemma_texts_differ_at("-shared"@, "-g"@, 1);
            lemma_texts_differ_at("-shared"@, "--debug"@, 1);
        },
        ArgModel::LinkStatic => {
            assert(ts[0] == "-static"@);
            assert(ts[0].subrange(0, 1) =~= "-"@);
            lemma_texts_differ_at("-static"@, "-c"@, 1);
            lemma_texts_differ_at("-static"@, "-I"@, 1);
            lemma_texts_differ_at("-static"@, "-isysroot"@, 1);
            lemma_texts_differ_at("-static"@, "-l"@, 1);
            lemma_texts_differ_at("-static"@, "-L"@, 1);
            lemma_texts_differ_at("-static"@, "-arch"@, 1);
            lemma_texts_differ_at("-static"@, "-g"@, 1);
            lemma_texts_differ_at("-static"@, "--debug"@, 1);
            lemma_texts_differ_at("-static"@, "-shared"@, 2);
            lemma_texts_differ_at("-static"@, "--shared"@, 1);
        },
        ArgModel::FlagPIC(true) => {
            assert(ts[0] == "-fPIC"@);
            assert(ts[0].subrange(0, 1) =~= "-"@);
            lemma_texts_differ_at("-fPIC"@, "-c"@, 1);
            lemma_texts_differ_at("-fPIC"@, "-I"@, 1);
            lemma_texts_differ_at("-fPIC"@, "-isysroot"@, 1);
            lemma_texts_differ_at("-fPIC"@, "-l"@, 1);
            lemma_texts_differ_at("-fPIC"@, "-L"@, 1);
            lemma_texts_differ_at("-fPIC"@, "-arch"@, 1);
            lemma_texts_differ_at("-fPIC"@, "-g"@, 1);
            lemma_texts_differ_at("-fPIC"@, "--debug"@, 1);
            lemma_texts_differ_at("-fPIC"@, "-shared"@, 1);
            lemma_texts_differ_at("-fPIC"@, "--shared"@, 1);
            lemma_texts_differ_at("-fPIC"@, "-static"@, 1);
            lemma_texts_differ_at("-fPIC"@, "--static"@, 1);
        },
        ArgModel::FlagPIC(false) => {
            assert(ts[0] == "-fno-PIC"@);
            assert(ts[0].subrange(0, 1) =~= "-"@);
            lemma_texts_differ_at("-fno-PIC"@, "-c"@, 1);
            lemma_texts_differ_at("-fno-PIC"@, "-I"@, 1);
            lemma_texts_differ_at("-fno-PIC"@, "-isysroot"@, 1);
            lemma_texts_differ_at("-fno-PIC"@, "-l"@, 1);
            lemma_texts_differ_at("-fno-PIC"@, "-L"@, 1);
            lemma_texts_differ_at("-fno-PIC"@, "-arch"@, 1);
            lemma_texts_differ_at("-fno-PIC"@, "-g"@, 1);
            lemma_texts_differ_at("-fno-PIC"@, "--debug"@, 1);
            lemma_texts_differ_at("-fno-PIC"@, "-shared"@, 1);
            lemma_texts_differ_at("-fno-PIC"@, "--shared"@, 1);
            lemma_texts_differ_at("-fno-PIC"@, "-static"@, 1);
            lemma_texts_differ_at("-fno-PIC"@, "--static"@, 1);
            lemma_texts_differ_at("-fno-PIC"@, "-fPIC"@, 2);
        },
        ArgModel::FlagPIE(true) => {
            assert(ts[0] == "-fPIE"@);
            assert(ts[0].subrange(0, 1) =~= "-"@);
            lemma_texts_differ_at("-fPIE"@, "-c"@, 1);
            lemma_texts_differ_at("-fPIE"@, "-I"@, 1);
            lemma_texts_differ_at("-fPIE"@, "-isysroot"@, 1);
            lemma_texts_differ_at("-fPIE"@, "-l"@, 1);
            lemma_texts_differ_at("-fPIE"@, "-L"@, 1);
            lemma_texts_differ_at("-fPIE"@, "-arch"@, 1);
            lemma_texts_differ_at("-fPIE"@, "-g"@, 1);
            lemma_texts_differ_at("-fPIE"@, "--debug"@, 1);
            lemma_texts_differ_at("-fPIE"@, "-shared"@, 1);
            lemma_texts_differ_at("-fPIE"@, "--shared"@, 1);
            lemma_texts_differ_at("-fPIE"@, "-static"@, 1);
            lemma_texts_differ_at("-fPIE"@, "--static"@, 1);
            lemma_texts_differ_at("-fPIE"@, "-fPIC"@, 4);
            lemma_texts_differ_at("-fPIE"@, "-fno-PIC"@, 2);
        },
        ArgModel::FlagPIE(false) => {
            assert(ts[0] == "-fno-PIE"@);
            assert(ts[0].subrange(0, 1) =~= "-"@);
            lemma_texts_differ_at("-fno-PIE"@, "-c"@, 1);
            lemma_texts_differ_at("-fno-PIE"@, "-I"@, 1);
            lemma_texts_differ_at("-fno-PIE"@, "-isysroot"@, 1);
            lemma_texts_differ_at("-fno-PIE"@, "-l"@, 1);
            lemma_texts_differ_at("-fno-PIE"@, "-L"@, 1);
            lemma_texts_differ_at("-fno-PIE"@, "-arch"@, 1);
            lemma_texts_differ_at("-fno-PIE"@, "-g"@, 1);
            lemma_texts_differ_at("-fno-PIE"@, "--debug"@, 1);
            lemma_texts_differ_at("-fno-PIE"@, "-shared"@, 1);
            lemma_texts_differ_at("-fno-PIE"@, "--shared"@, 1);
            lemma_texts_differ_at("-fno-PIE"@, "-static"@, 1);
            lemma_texts_differ_at("-fno-PIE"@, "--static"@, 1);
            lemma_texts_differ_at("-fno-PIE"@, "-fPIC"@, 2);
            lemma_texts_differ_at("-fno-PIE"@, "-fno-PIC"@, 7);
            lemma_texts_differ_at("-fno-PIE"@, "-fPIE"@, 2);
        },
        ArgModel::FlagRTTI(true) => {
            assert(ts[0] == "-frtti"@);
            assert(ts[0].subrange(0, 1) =~= "-"@);
            lemma_texts_differ_at("-frtti"@, "-c"@, 1);
            lemma_texts_differ_at("-frtti"@, "-I"@, 1);
            lemma_texts_differ_at("-frtti"@, "-isysroot"@, 1);
            lemma_texts_differ_at("-frtti"@, "-l"@, 1);
            lemma_texts_differ_at("-frtti"@, "-L"@, 1);
            lemma_texts_differ_at("-frtti"@, "-arch"@, 1);
            lemma_texts_differ_at("-frtti"@, "-g"@, 1);
            lemma_texts_differ_at("-frtti"@, "--debug"@, 1);
            lemma_texts_differ_at("-frtti"@, "-shared"@, 1);
            lemma_texts_differ_at("-frtti"@, "--shared"@, 1);
            lemma_texts_differ_at("-frtti"@, "-static"@, 1);
            lemma_texts_differ_at("-frtti"@, "--static"@, 1);
            lemma_texts_differ_at("-frtti"@, "-fPIC"@, 2);
            lemma_texts_differ_at("-frtti"@, "-fno-PIC"@, 2);
            lemma_texts_differ_at("-frtti"@, "-fPIE"@, 2);
            lemma_texts_differ_at("-frtti"@, "-fno-PIE"@, 2);
        },
        ArgModel::FlagRTTI(false) => {
            assert(ts[0] == "-fno-rtti"@);
            assert(ts[0].subrange(0, 1) =~= "-"@);
            lemma_texts_differ_at("-fno-rtti"@, "-c"@, 1);
            lemma_texts_differ_at("-fno-rtti"@, "-I"@, 1);
            lemma_texts_differ_at("-fno-rtti"@, "-isysroot"@, 1);
            lemma_texts_differ_at("-fno-rtti"@, "-l"@, 1);
            lemma_texts_differ_at("-fno-rtti"@, "-L"@, 1);
            lemma_texts_differ_at("-fno-rtti"@, "-arch"@, 1);
            lemma_texts_differ_at("-fno-rtti"@, "-g"@, 1);
            lemma_texts_differ_at("-fno-rtti"@, "--debug"@, 1);
            lemma_texts_differ_at("-fno-rtti"@, "-shared"@, 1);
            lemma_texts_differ_at("-fno-rtti"@, "--shared"@, 1);
            lemma_texts_differ_at("-fno-rtti"@, "-static"@, 1);
            lemma_texts_differ_at("-fno-rtti"@, "--static"@, 1);
            lemma_texts_differ_at("-fno-rtti"@, "-fPIC"@, 2);
            lemma_texts_differ_at("-fno-rtti"@, "-fno-PIC"@, 5);
            lemma_texts_differ_at("-fno-rtti"@, "-fPIE"@, 2);
            lemma_texts_differ_at("-fno-rtti"@, "-fno-PIE"@, 5);
            lemma_texts_differ_at("-fno-rtti"@, "-frtti"@, 2);
        },
        ArgModel::FlagExceptions(true) => {
            assert(ts[0] == "-fexceptions"@);
            assert(ts[0].subrange(0, 1) =~= "-"@);
            lemma_texts_differ_at("-fexceptions"@, "-c"@, 1);
            lemma_texts_differ_at("-fexceptions"@, "-I"@, 1);
            lemma_texts_differ_at("-fexceptions"@, "-isysroot"@, 1);
            lemma_texts_differ_at("-fexceptions"@, "-l"@, 1);
            lemma_texts_differ_at("-fexceptions"@, "-L"@, 1);
            lemma_texts_differ_at("-fexceptions"@, "-arch"@, 1);
            lemma_texts_differ_at("-fexceptions"@, "-g"@, 1);
            lemma_texts_differ_at("-fexceptions"@, "--debug"@, 1);
            lemma_texts_differ_at("-fexceptions"@, "-shared"@, 1);
            lemma_texts_differ_at("-fexceptions"@, "--shared"@, 1);
            lemma_texts_differ_at("-fexceptions"@, "-static"@, 1);
            lemma_texts_differ_at("-fexceptions"@, "--static"@, 1);
            lemma_texts_differ_at("-fexceptions"@, "-fPIC"@, 2);
            lemma_texts_differ_at("-fexceptions"@, "-fno-PIC"@, 2);
            lemma_texts_differ_at("-fexceptions"@, "-fPIE"@, 2);
            lemma_texts_differ_at("-fexceptions"@, "-fno-PIE"@, 2);
            lemma_texts_differ_at("-fexceptions"@, "-frtti"@, 2);
            lemma_texts_differ_at("-fexceptions"@, "-fno-rtti"@, 2);
        },
        ArgModel::FlagExceptions(false) => {
            assert(ts[0] == "-fno-exceptions"@);
            assert(ts[0].subrange(0, 1) =~= "-"@);
            lemma_texts_differ_at("-fno-exceptions"@, "-c"@, 1);
            lemma_texts_differ_at("-fno-exceptions"@, "-I"@, 1);
            lemma_texts_differ_at("-fno-exceptions"@, "-isysroot"@, 1);
            lemma_texts_differ_at("-fno-exceptions"@, "-l"@, 1);
            lemma_texts_differ_at("-fno-exceptions"@, "-L"@, 1);
            lemma_texts_differ_at("-fno-exceptions"@, "-arch"@, 1);
            lemma_texts_differ_at("-fno-exceptions"@, "-g"@, 1);
            lemma_texts_differ_at("-fno-exceptions"@, "--debug"@, 1);
            lemma_texts_differ_at("-fno-exceptions"@, "-shared"@, 1);
            lemma_texts_differ_at("-fno-exceptions"@, "--shared"@, 1);
            lemma_texts_differ_at("-fno-exceptions"@, "-static"@, 1);
            lemma_texts_differ_at("-fno-exceptions"@, "--static"@, 1);
            lemma_texts_differ_at("-fno-exceptions"@, "-fPIC"@, 2);
            lemma_texts_differ_at("-fno-exceptions"@, "-fno-PIC"@, 5);
            lemma_texts_differ_at("-fno-exceptions"@, "-fPIE"@, 2);
            lemma_texts_differ_at("-fno-exceptions"@, "-fno-PIE"@, 5);
            lemma_texts_differ_at("-fno-exceptions"@, "-frtti"@, 2);
            lemma_texts_differ_at("-fno-exceptions"@, "-fno-rtti"@, 5);
            lemma_texts_differ_at("-fno-exceptions"@, "-fexceptions"@, 2);
        },
        ArgModel::NoWarnings => {
            assert(ts[0] == "-w"@);
            assert(ts[0].subrange(0, 1) =~= "-"@);
            lemma_texts_differ_at("-w"@, "-c"@, 1);
            lemma_texts_differ_at("-w"@, "-I"@, 1);
            lemma_texts_differ_at("-w"@, "-isysroot"@, 1);
            lemma_texts_differ_at("-w"@, "-l"@, 1);
            lemma_texts_differ_at("-w"@, "-L"@, 1);
            lemma_texts_differ_at("-w"@, "-arch"@, 1);
            lemma_texts_differ_at("-w"@, "-g"@, 1);
            lemma_texts_differ_at("-w"@, "--debug"@, 1);
            lemma_texts_differ_at("-w"@, "-shared"@, 1);
            lemma_texts_differ_at("-w"@, "--shared"@, 1);
            lemma_texts_differ_at("-w"@, "-static"@, 1);
            lemma_texts_differ_at("-w"@, "--static"@, 1);
            lemma_texts_differ_at("-w"@, "-fPIC"@, 1);
            lemma_texts_differ_at("-w"@, "-fno-PIC"@, 1);
            lemma_texts_differ_at("-w"@, "-fPIE"@, 1);
            lemma_texts_differ_at("-w"@, "-fno-PIE"@, 1);
            lemma_texts_differ_at("-w"@, "-frtti"@, 1);
            lemma_texts_differ_at("-w"@, "-fno-rtti"@, 1);
            lemma_texts_differ_at("-w"@, "-fexceptions"@, 1);
            lemma_texts_differ_at("-w"@, "-fno-exceptions"@, 1);
        },
        ArgModel::Pedantic => {
            assert(ts[0] == "-pedantic"@);
            assert(ts[0].subrange(0, 1) =~= "-"@);
            lemma_texts_differ_at("-pedantic"@, "-c"@, 1);
            lemma_texts_differ_at("-pedantic"@, "-I"@, 1);
            lemma_texts_differ_at("-pedantic"@, "-isysroot"@, 1);
            lemma_texts_differ_at("-pedantic"@, "-l"@, 1);
            lemma_texts_differ_at("-pedantic"@, "-L"@, 1);
            lemma_texts_differ_at("-pedantic"@, "-arch"@, 1);
            lemma_texts_differ_at("-pedantic"@, "-g"@, 1);
            lemma_texts_differ_at("-pedantic"@, "--debug"@, 1);
            lemma_texts_differ_at("-pedantic"@, "-shared"@, 1);
            lemma_texts_differ_at("-pedantic"@, "--shared"@, 1);
            lemma_texts_differ_at("-pedantic"@, "-static"@, 1);
            lemma_texts_differ_at("-pedantic"@, "--static"@, 1);
            lemma_texts_differ_at("-pedantic"@, "-fPIC"@, 1);
            lemma_texts_differ_at("-pedantic"@, "-fno-PIC"@, 1);
            lemma_texts_differ_at("-pedantic"@, "-fPIE"@, 1);
            lemma_texts_differ_at("-pedantic"@, "-fno-PIE"@, 1);
            lemma_texts_differ_at("-pedantic"@, "-frtti"@, 1);
            lemma_texts_differ_at("-pedantic"@, "-fno-rtti"@, 1);
            lemma_texts_differ_at("-pedantic"@, "-fexceptions"@, 1);
            lemma_texts_differ_at("-pedantic"@, "-fno-exceptions"@, 1);
            lemma_texts_differ_at("-pedantic"@, "-w"@, 1);
            lemma_texts_differ_at("-pedantic"@, "--no-warnings"@, 1);
        },
        ArgModel::POSIXThread => {
            assert(ts[0] == "-pthread"@);
            assert(ts[0].subrange(0, 1) =~= "-"@);
            lemma_texts_differ_at("-pthread"@, "-c"@, 1);
            lemma_texts_differ_at("-pthread"@, "-I"@, 1);
            lemma_texts_differ_at("-pthread"@, "-isysroot"@, 1);
            lemma_texts_differ_at("-pthread"@, "-l"@, 1);
            lemma_texts_differ_at("-pthread"@, "-L"@, 1);
            lemma_texts_differ_at("-pthread"@, "-arch"@, 1);
            lemma_texts_differ_at("-pthread"@, "-g"@, 1);
            lemma_texts_differ_at("-pthread"@, "--debug"@, 1);
            lemma_texts_differ_at("-pthread"@, "-shared"@, 1);
            lemma_texts_differ_at("-pthread"@, "--shared"@, 1);
            lemma_texts_differ_at("-pthread"@, "-static"@, 1);
            lemma_texts_differ_at("-pthread"@, "--static"@, 1);
            lemma_texts_differ_at("-pthread"@, "-fPIC"@, 1);
            lemma_texts_differ_at("-pthread"@, "-fno-PIC"@, 1);
            lemma_texts_differ_at("-pthread"@, "-fPIE"@, 1);
            lemma_texts_differ_at("-pthread"@, "-fno-PIE"@, 1);
            lemma_texts_differ_at("-pthread"@, "-frtti"@, 1);
            lemma_texts_differ_at("-pthread"@, "-fno-rtti"@, 1);
            lemma_texts_differ_at("-pthread"@, "-fexceptions"@, 1);
            lemma_texts_differ_at("-pthread"@, "-fno-exceptions"@, 1);
            lemma_texts_differ_at("-pthread"@, "-w"@, 1);
            lemma_texts_differ_at("-pthread"@, "--no-warnings"@, 1);
            lemma_texts_differ_at("-pthread"@, "-pedantic"@, 2);
        },
        ArgModel::Arch(x) => {
            assert(ts[0] == "-arch"@);
            assert(ts[0].subrange(0, 1) =~= "-"@);
            lemma_texts_differ_at("-arch"@, "-c"@, 1);
            lemma_texts_differ_at("-arch"@, "-I"@, 1);
            lemma_texts_differ_at("-arch"@, "-isysroot"@, 1);
            lemma_texts_differ_at("-arch"@, "-l"@, 1);
            lemma_texts_differ_at("-arch"@, "-L"@, 1);
        },
        ArgModel::IncludeSysroot(x) => {
            assert(ts[0] == "-isysroot"@);
            assert(ts[0].subrange(0, 1) =~= "-"@);
            lemma_texts_differ_at("-isysroot"@, "-c"@, 1);
            lemma_texts_differ_at("-isysroot"@, "-I"@, 1);
        },
        ArgModel::Output(x) => {
            assert(ts[0] == "-o"@);
            assert(ts[0].subrange(0, 1) =~= "-"@);
            lemma_texts_differ_at("-o"@, "-c"@, 1);
            lemma_texts_differ_at("-o"@, "-I"@, 1);
            lemma_texts_differ_at("-o"@, "-isysroot"@, 1);
            lemma_texts_differ_at("-o"@, "-l"@, 1);
            lemma_texts_differ_at("-o"@, "-L"@, 1);
            lemma_texts_differ_at("-o"@, "-arch"@, 1);
            lemma_texts_differ_at("-o"@, "-g"@, 1);
            lemma_texts_differ_at("-o"@, "--debug"@, 1);
            lemma_texts_differ_at("-o"@, "-shared"@, 1);
            lemma_texts_differ_at("-o"@, "--shared"@, 1);
            lemma_texts_differ_at("-o"@, "-static"@, 1);
            lemma_texts_differ_at("-o"@, "--static"@, 1);
            lemma_texts_differ_at("-o"@, "-fPIC"@, 1);
            lemma_texts_differ_at("-o"@, "-fno-PIC"@, 1);
            lemma_texts_differ_at("-o"@, "-fPIE"@, 1);
            lemma_texts_differ_at("-o"@, "-fno-PIE"@, 1);
            lemma_texts_differ_at("-o"@, "-frtti"@, 1);
            lemma_texts_differ_at("-o"@, "-fno-rtti"@, 1);
            lemma_texts_differ_at("-o"@, "-fexceptions"@, 1);
            lemma_texts_differ_at("-o"@, "-fno-exceptions"@, 1);
            lemma_texts_differ_at("-o"@, "-w"@, 1);
            lemma_texts_differ_at("-o"@, "--no-warnings"@, 1);
            lemma_texts_differ_at("-o"@, "-pedantic"@, 1);
            lemma_texts_differ_at("-o"@, "-pthread"@, 1);
        },
        ArgModel::Standard(x) => {
            let t = "-std="@ + x;
            assert(ts[0] == t);
            lemma_word_with_prefix("-std="@, x);
            lemma_texts_differ_at(t, "-c"@, 1);
            lemma_texts_differ_at(t, "-I"@, 1);
            lemma_texts_differ_at(t, "-isysroot"@, 1);
            lemma_texts_differ_at(t, "-l"@, 1);
            lemma_texts_differ_at(t, "-L"@, 1);
            lemma_texts_differ_at(t, "-arch"@, 1);
            lemma_texts_differ_at(t, "-g"@, 1);
            lemma_texts_differ_at(t, "--debug"@, 1);
            lemma_texts_differ_at(t, "-shared"@, 2);
            lemma_texts_differ_at(t, "--shared"@, 1);
            lemma_texts_differ_at(t, "-static"@, 3);
            lemma_texts_differ_at(t, "--static"@, 1);
            lemma_texts_differ_at(t, "-fPIC"@, 1);
            lemma_texts_differ_at(t, "-fno-PIC"@, 1);
            lemma_texts_differ_at(t, "-fPIE"@, 1);
            lemma_texts_differ_at(t, "-fno-PIE"@, 1);
            lemma_texts_differ_at(t, "-frtti"@, 1);
            lemma_texts_differ_at(t, "-fno-rtti"@, 1);
            lemma_texts_differ_at(t, "-fexceptions"@, 1);
            lemma_texts_differ_at(t, "-fno-exceptions"@, 1);
            lemma_texts_differ_at(t, "-w"@, 1);
            lemma_texts_differ_at(t, "--no-warnings"@, 1);
            lemma_texts_differ_at(t, "-pedantic"@, 1);
            lemma_texts_differ_at(t, "-pthread"@, 1);
            lemma_texts_differ_at(t, "-o"@, 1);
            lemma_texts_differ_at(t, "-Wp,"@, 1);
            lemma_texts_differ_at(t, "-Wl,"@, 1);
        },
        ArgModel::Include(x) => {
            let t = "-I"@ + x;
            assert(ts[0] == t);
            lemma_word_with_prefix("-I"@, x);
            lemma_texts_differ_at(t, "-c"@, 1);
            assert(t.len() != "-I"@.len());
            lemma_texts_differ_at(t, "-isysroot"@, 1);
            lemma_texts_differ_at(t, "-l"@, 1);
            lemma_texts_differ_at(t, "-L"@, 1);
            lemma_texts_differ_at(t, "-arch"@, 1);
            lemma_texts_differ_at(t, "-g"@, 1);
            lemma_texts_differ_at(t, "--debug"@, 1);
            lemma_texts_differ_at(t, "-shared"@, 1);
            lemma_texts_differ_at(t, "--shared"@, 1);
            lemma_texts_differ_at(t, "-static"@, 1);
            lemma_texts_differ_at(t, "--static"@, 1);
            lemma_texts_differ_at(t, "-fPIC"@, 1);
            lemma_texts_differ_at(t, "-fno-PIC"@, 1);
            lemma_texts_differ_at(t, "-fPIE"@, 1);
            lemma_texts_differ_at(t, "-fno-PIE"@, 1);
            lemma_texts_differ_at(t, "-frtti"@, 1);
            lemma_texts_differ_at(t, "-fno-rtti"@, 1);
            lemma_texts_differ_at(t, "-fexceptions"@, 1);
            lemma_texts_differ_at(t, "-fno-exceptions"@, 1);
            lemma_texts_differ_at(t, "-w"@, 1);
            lemma_texts_differ_at(t, "--no-warnings"@, 1);
            lemma_texts_differ_at(t, "-pedantic"@, 1);
            lemma_texts_differ_at(t, "-pthread"@, 1);
            lemma_texts_differ_at(t, "-o"@, 1);
            lemma_texts_differ_at(t, "-Wp,"@, 1);
            lemma_texts_differ_at(t, "-Wl,"@, 1);
            lemma_texts_differ_at(t, "-std="@, 1);
            lemma_texts_differ_at(t, "-D"@, 1);
        },
        ArgModel::Optimization(x) => {
            let t = "-O"@ + x;
            assert(ts[0] == t);
            lemma_word_with_prefix("-O"@, x);
            lemma_texts_differ_at(t, "-c"@, 1);
            lemma_texts_differ_at(t, "-I"@, 1);
            lemma_texts_differ_at(t, "-isysroot"@, 1);
            lemma_texts_differ_at(t, "-l"@, 1);
            lemma_texts_differ_at(t, "-L"@, 1);
            lemma_texts_differ_at(t, "-arch"@, 1);
            lemma_texts_differ_at(t, "-g"@, 1);
            lemma_texts_differ_at(t, "--debug"@, 1);
            lemma_texts_differ_at(t, "-shared"@, 1);
            lemma_texts_differ_at(t, "--shared"@, 1);
            lemma_texts_differ_at(t, "-static"@, 1);
            lemma_texts_differ_at(t, "--static"@, 1);
            lemma_texts_differ_at(t, "-fPIC"@, 1);
            lemma_texts_differ_at(t, "-fno-PIC"@, 1);
            lemma_texts_differ_at(t, "-fPIE"@, 1);
            lemma_texts_differ_at(t, "-fno-PIE"@, 1);
            lemma_texts_differ_at(t, "-frtti"@, 1);
            lemma_texts_differ_at(t, "-fno-rtti"@, 1);
            lemma_texts_differ_at(t, "-fexceptions"@, 1);
            lemma_texts_differ_at(t, "-fno-exceptions"@, 1);
            lemma_texts_differ_at(t, "-w"@, 1);
            lemma_texts_differ_at(t, "--no-warnings"@, 1);
            lemma_texts_differ_at(t, "-pedantic"@, 1);
            lemma_texts_differ_at(t, "-pthread"@, 1);
            lemma_texts_differ_at(t, "-o"@, 1);
            lemma_texts_differ_at(t, "-Wp,"@, 1);
            lemma_texts_differ_at(t, "-Wl,"@, 1);
            lemma_texts_differ_at(t, "-std="@, 1);
            lemma_texts_differ_at(t, "-D"@, 1);
            lemma_texts_differ_at(t, "-I"@, 1);
        },
        ArgModel::MachineArch(x) => {
            let t = "-march="@ + x;
            assert(ts[0] == t);
            lemma_word_with_prefix("-march="@, x);
            lemma_texts_differ_at(t, "-c"@, 1);
            lemma_texts_differ_at(t, "-I"@, 1);
            lemma_texts_differ_at(t, "-isysroot"@, 1);
            lemma_texts_differ_at(t, "-l"@, 1);
            lemma_texts_differ_at(t, "-L"@, 1);
            lemma_texts_differ_at(t, "-arch"@, 1);
            lemma_texts_differ_at(t, "-g"@, 1);
            lemma_texts_differ_at(t, "--debug"@, 1);
            lemma_texts_differ_at(t, "-shared"@, 1);
            lemma_texts_differ_at(t, "--shared"@, 1);
            lemma_texts_differ_at(t, "-static"@, 1);
            lemma_texts_differ_at(t, "--static"@, 1);
            lemma_texts_differ_at(t, "-fPIC"@, 1);
            lemma_texts_differ_at(t, "-fno-PIC"@, 1);
            lemma_texts_differ_at(t, "-fPIE"@, 1);
            lemma_texts_differ_at(t, "-fno-PIE"@, 1);
            lemma_texts_differ_at(t, "-frtti"@, 1);
            lemma_texts_differ_at(t, "-fno-rtti"@, 1);
            lemma_texts_differ_at(t, "-fexceptions"@, 1);
            lemma_texts_differ_at(t, "-fno-exceptions"@, 1);
            lemma_texts_differ_at(t, "-w"@, 1);
            lemma_texts_differ_at(t, "--no-warnings"@, 1);
            lemma_texts_differ_at(t, "-pedantic"@, 1);
            lemma_texts_differ_at(t, "-pthread"@, 1);
            lemma_texts_differ_at(t, "-o"@, 1);
            lemma_texts_differ_at(t, "-Wp,"@, 1);
            lemma_texts_differ_at(t, "-Wl,"@, 1);
            lemma_texts_differ_at(t, "-std="@, 1);
            lemma_texts_differ_at(t, "-D"@, 1);
            lemma_texts_differ_at(t, "-I"@, 1);
            lemma_texts_differ_at(t, "-O"@, 1);
        },
        ArgModel::LibName(x) => {
            let t = "-l"@ + x;
            assert(ts[0] == t);
            lemma_word_with_prefix("-l"@, x);
            lemma_texts_differ_at(t, "-c"@, 1);
            lemma_texts_differ_at(t, "-I"@, 1);
            lemma_texts_differ_at(t, "-isysroot"@, 1);
            assert(t.len() != "-l"@.len());
            lemma_texts_differ_at(t, "-L"@, 1);
            lemma_texts_differ_at(t, "-arch"@, 1);
            lemma_texts_differ_at(t, "-g"@, 1);
            lemma_texts_differ_at(t, "--debug"@, 1);
            lemma_texts_differ_at(t, "-shared"@, 1);
            lemma_texts_differ_at(t, "--shared"@, 1);
            lemma_texts_differ_at(t, "-static"@, 1);
            lemma_texts_differ_at(t, "--static"@, 1);
            lemma_texts_differ_at(t, "-fPIC"@, 1);
            lemma_texts_differ_at(t, "-fno-PIC"@, 1);
            lemma_texts_differ_at(t, "-fPIE"@, 1);
            lemma_texts_differ_at(t, "-fno-PIE"@, 1);
            lemma_texts_differ_at(t, "-frtti"@, 1);
            lemma_texts_differ_at(t, "-fno-rtti"@, 1);
            lemma_texts_differ_at(t, "-fexceptions"@, 1);
            lemma_texts_differ_at(t, "-fno-exceptions"@, 1);
            lemma_texts_differ_at(t, "-w"@, 1);
            lemma_texts_differ_at(t, "--no-warnings"@, 1);
            lemma_texts_differ_at(t, "-pedantic"@, 1);
            lemma_texts_differ_at(t, "-pthread"@, 1);
            lemma_texts_differ_at(t, "-o"@, 1);
            lemma_texts_differ_at(t, "-Wp,"@, 1);
            lemma_texts_differ_at(t, "-Wl,"@, 1);
            lemma_texts_differ_at(t, "-std="@, 1);
            lemma_texts_differ_at(t, "-D"@, 1);
            lemma_texts_differ_at(t, "-I"@, 1);
            lemma_texts_differ_at(t, "-O"@, 1);
            lemma_texts_differ_at(t, "-march="@, 1);
        },
        ArgModel::LibPath(x) => {
            let t = "-L"@ + x;
            assert(ts[0] == t);
            lemma_word_with_prefix("-L"@, x);
            lemma_texts_differ_at(t, "-c"@, 1);
            lemma_texts_differ_at(t, "-I"@, 1);
            lemma_texts_differ_at(t, "-isysroot"@, 1);
            lemma_texts_differ_at(t, "-l"@, 1);
            assert(t.len() != "-L"@.len());
            lemma_texts_differ_at(t, "-arch"@, 1);
            lemma_texts_differ_at(t, "-g"@, 1);
            lemma_texts_differ_at(t, "--debug"@, 1);
            lemma_texts_differ_at(t, "-shared"@, 1);
            lemma_texts_differ_at(t, "--shared"@, 1);
            lemma_texts_differ_at(t, "-static"@, 1);
            lemma_texts_differ_at(t, "--static"@, 1);
            lemma_texts_differ_at(t, "-fPIC"@, 1);
            lemma_texts_differ_at(t, "-fno-PIC"@, 1);
            lemma_texts_differ_at(t, "-fPIE"@, 1);
            lemma_texts_differ_at(t, "-fno-PIE"@, 1);
            lemma_texts_differ_at(t, "-frtti"@, 1);
            lemma_texts_differ_at(t, "-fno-rtti"@, 1);
            lemma_texts_differ_at(t, "-fexceptions"@, 1);
            lemma_texts_differ_at(t, "-fno-exceptions"@, 1);
            lemma_texts_differ_at(t, "-w"@, 1);
            lemma_texts_differ_at(t, "--no-warnings"@, 1);
            lemma_texts_differ_at(t, "-pedantic"@, 1);
            lemma_texts_differ_at(t, "-pthread"@, 1);
            lemma_texts_differ_at(t, "-o"@, 1);
            lemma_texts_differ_at(t, "-Wp,"@, 1);
            lemma_texts_differ_at(t, "-Wl,"@, 1);
            lemma_texts_differ_at(t, "-std="@, 1);
            lemma_texts_differ_at(t, "-D"@, 1);
            lemma_texts_differ_at(t, "-I"@, 1);
            lemma_texts_differ_at(t, "-O"@, 1);
            lemma_texts_differ_at(t, "-march="@, 1);
            lemma_texts_differ_at(t, "-l"@, 1);
        },
        _ => {},
    }
    lemma_step_consumes(ts);
    let c = parse_step(ts)->Some_0.1;
    assert(parse_step(ts) == Some((seq![a], c)));
    assert(ts.skip(c as int) =~= Seq::<Seq<char>>::empty());
    assert(parse_all(ts.skip(c as int)) == Some(Seq::<ArgModel>::empty()));
    assert(seq![a] + Seq::<ArgModel>::empty() =~= seq![a]);
}

} // verus!

verus! {

/// A key, or a key with `=` and a value, splits back into that key and value.
proof fn lemma_key_value_of(k: Seq<char>, v: Option<Seq<char>>)
    requires
        first_index_of(k, '=') is None,
    ensures
        key_value_of(
            match v {
                Some(x) => k + "="@ + x,
                None => k,
            },
        ) == (k, v),
{
    reveal_strlit("=");
    if let Some(x) = v {
        let item = k + "="@ + x;
        lemma_first_equals(k, x);
        assert(item.subrange(0, k.len() as int) =~= k);
        assert(item.subrange(k.len() + 1 as int, item.len() as int) =~= x);
    }
}

/// The arguments with a key and maybe a value whose words read back as
/// themselves: keys free of `=`, and warnings that do not open a group.
pub open spec fn plain_keyed(a: ArgModel) -> bool {
    match a {
        ArgModel::Define(k, _) | ArgModel::Print(k, _) => first_index_of(k, '=') is None,
        ArgModel::Warning(k, v) => first_index_of(k, '=') is None && !has_prefix(
            match v {
                Some(x) => k + "="@ + x,
                None => k,
            },
            "p,"@,
        ) && !has_prefix(
            match v {
                Some(x) => k + "="@ + x,
                None => k,
            },
            "l,"@,
        ),
        _ => false,
    }
}

/// Collecting the word of a definition, a warning or a print option gives the
/// argument back.
#[verifier::rlimit(80)]
pub proof fn law_collect_undoes_keyed_words(a: ArgModel)
    requires
        plain_keyed(a),
    ensures
        parse_all(arg_words(a)) == Some(seq![a]),
{
    reveal_strlit("-");
    reveal_strlit("--debug");
    reveal_strlit("--no-warnings");
    reveal_strlit("--print-");
    reveal_strlit("--shared");
    reveal_strlit("--static");
    reveal_strlit("-D");
    reveal_strlit("-I");
    reveal_strlit("-L");
    reveal_strlit("-O");
    reveal_strlit("-W");
    reveal_strlit("-Wl,");
    reveal_strlit("-Wp,");
    reveal_strlit("-arch");
    reveal_strlit("-c");
    reveal_strlit("-fPIC");
    reveal_strlit("-fPIE");
    reveal_strlit("-fexceptions");
    reveal_strlit("-fno-PIC");
    reveal_strlit("-fno-PIE");
    reveal_strlit("-fno-exceptions");
    reveal_strlit("-fno-rtti");
    reveal_strlit("-frtti");
    reveal_strlit("-g");
    reveal_strlit("-isysroot");
    reveal_strlit("-l");
    reveal_strlit("-march=");
    reveal_strlit("-o");
    reveal_strlit("-pedantic");
    reveal_strlit("-print-");
    reveal_strlit("-pthread");
    reveal_strlit("-shared");
    reveal_strlit("-static");
    reveal_strlit("-std=");
    reveal_strlit("-w");
    reveal_strlit("=");
    reveal_strlit("l,");
    reveal_strlit("p,");
    let ts = arg_words(a);
    match a {
        ArgModel::Define(k, v) => {
            let item = match v {
                Some(x) => k + "="@ + x,
                None => k,
            };
            let t = "-D"@ + item;
            assert(ts[0] == t) by {
                if let Some(x) = v {
                    assert("-D"@ + k + "="@ + x =~= t);
                }
            }
            lemma_word_with_prefix("-D"@, item);
            lemma_key_value_of(k, v);

            lemma_texts_differ_at(t, "-c"@, 1);
            lemma_texts_differ_at(t, "-I"@, 1);
            lemma_texts_differ_at(t, "-isysroot"@, 1);
            lemma_texts_differ_at(t, "-l"@, 1);
            lemma_texts_differ_at(t, "-L"@, 1);
            lemma_texts_differ_at(t, "-arch"@, 1);
            lemma_texts_differ_at(t, "-g"@, 1);
            lemma_texts_differ_at(t, "--debug"@, 1);
            lemma_texts_differ_at(t, "-shared"@, 1);
            lemma_texts_differ_at(t, "--shared"@, 1);
            lemma_texts_differ_at(t, "-static"@, 1);
            lemma_texts_differ_at(t, "--static"@, 1);
            lemma_texts_differ_at(t, "-fPIC"@, 1);
            lemma_texts_differ_at(t, "-fno-PIC"@, 1);
            lemma_texts_differ_at(t, "-fPIE"@, 1);
            lemma_texts_differ_at(t, "-fno-PIE"@, 1);
            lemma_texts_differ_at(t, "-frtti"@, 1);
            lemma_texts_differ_at(t, "-fno-rtti"@, 1);
            lemma_texts_differ_at(t, "-fexceptions"@, 1);
            lemma_texts_differ_at(t, "-fno-exceptions"@, 1);
            lemma_texts_differ_at(t, "-w"@, 1);
            lemma_texts_differ_at(t, "--no-warnings"@, 1);
            lemma_texts_differ_at(t, "-pedantic"@, 1);
            lemma_texts_differ_at(t, "-pthread"@, 1);
            lemma_texts_differ_at(t, "-o"@, 1);
            lemma_texts_differ_at(t, "-Wp,"@, 1);
            lemma_texts_differ_at(t, "-Wl,"@, 1);
            lemma_texts_differ_at(t, "-std="@, 1);
        },
        ArgModel::Warning(k, v) => {
            let item = match v {
                Some(x) => k + "="@ + x,
                None => k,
            };
            let t = "-W"@ + item;
            assert(ts[0] == t) by {
                if let Some(x) = v {
                    assert("-W"@ + k + "="@ + x =~= t);
                }
            }
            lemma_word_with_prefix("-W"@, item);
            lemma_key_value_of(k, v);
            assert(!has_prefix(t, "-Wp,"@) && !has_prefix(t, "-Wl,"@)) by {
                if has_prefix(t, "-Wp,"@) {
                    assert(t.subrange(0, 4)[2] == 'p' && t.subrange(0, 4)[3] == ',');
                    assert(item.subrange(0, 2) =~= "p,"@);
                }
                if has_prefix(t, "-Wl,"@) {
                    assert(t.subrange(0, 4)[2] == 'l' && t.subrange(0, 4)[3] == ',');
                    assert(item.subrange(0, 2) =~= "l,"@);
                }
            }
            lemma_texts_differ_at(t, "-c"@, 1);
            lemma_texts_differ_at(t, "-I"@, 1);
            lemma_texts_differ_at(t, "-isysroot"@, 1);
            lemma_texts_differ_at(t, "-l"@, 1);
            lemma_texts_differ_at(t, "-L"@, 1);
            lemma_texts_differ_at(t, "-arch"@, 1);
            lemma_texts_differ_at(t, "-g"@, 1);
            lemma_texts_differ_at(t, "--debug"@, 1);
            lemma_texts_differ_at(t, "-shared"@, 1);
            lemma_texts_differ_at(t, "--shared"@, 1);
            lemma_texts_differ_at(t, "-static"@, 1);
            lemma_texts_differ_at(t, "--static"@, 1);
            lemma_texts_differ_at(t, "-fPIC"@, 1);
            lemma_texts_differ_at(t, "-fno-PIC"@, 1);
            lemma_texts_differ_at(t, "-fPIE"@, 1);
            lemma_texts_differ_at(t, "-fno-PIE"@, 1);
            lemma_texts_differ_at(t, "-frtti"@, 1);
            lemma_texts_differ_at(t, "-fno-rtti"@, 1);
            lemma_texts_differ_at(t, "-fexceptions"@, 1);
            lemma_texts_differ_at(t, "-fno-exceptions"@, 1);
            lemma_texts_differ_at(t, "-w"@, 1);
            lemma_texts_differ_at(t, "--no-warnings"@, 1);
            lemma_texts_differ_at(t, "-pedantic"@, 1);
            lemma_texts_differ_at(t, "-pthread"@, 1);
            lemma_texts_differ_at(t, "-o"@, 1);
            lemma_texts_differ_at(t, "-std="@, 1);
            lemma_texts_differ_at(t, "-D"@, 1);
            lemma_texts_differ_at(t, "-I"@, 1);
            lemma_texts_differ_at(t, "-O"@, 1);
            lemma_texts_differ_at(t, "-march="@, 1);
            lemma_texts_differ_at(t, "-l"@, 1);
            lemma_texts_differ_at(t, "-L"@, 1);
        },
        ArgModel::Print(k, v) => {
            let item = match v {
                Some(x) => k + "="@ + x,
                None => k,
            };
            let t = "-print-"@ + item;
            assert(ts[0] == t) by {
                if let Some(x) = v {
                    assert("-print-"@ + k + "="@ + x =~= t);
                }
            }
            lemma_word_with_prefix("-print-"@, item);
            lemma_key_value_of(k, v);

            lemma_texts_differ_at(t, "-c"@, 1);
            lemma_texts_differ_at(t, "-I"@, 1);
            lemma_texts_differ_at(t, "-isysroot"@, 1);
            lemma_texts_differ_at(t, "-l"@, 1);
            lemma_texts_differ_at(t, "-L"@, 1);
            lemma_texts_differ_at(t, "-arch"@, 1);
            lemma_texts_differ_at(t, "-g"@, 1);
            lemma_texts_differ_at(t, "--debug"@, 1);
            lemma_texts_differ_at(t, "-shared"@, 1);
            lemma_texts_differ_at(t, "--shared"@, 1);
            lemma_texts_differ_at(t, "-static"@, 1);
            lemma_texts_differ_at(t, "--static"@, 1);
            lemma_texts_differ_at(t, "-fPIC"@, 1);
            lemma_texts_differ_at(t, "-fno-PIC"@, 1);
            lemma_texts_differ_at(t, "-fPIE"@, 1);
            lemma_texts_differ_at(t, "-fno-PIE"@, 1);
            lemma_texts_differ_at(t, "-frtti"@, 1);
            lemma_texts_differ_at(t, "-fno-rtti"@, 1);
            lemma_texts_differ_at(t, "-fexceptions"@, 1);
            lemma_texts_differ_at(t, "-fno-exceptions"@, 1);
            lemma_texts_differ_at(t, "-w"@, 1);
            lemma_texts_differ_at(t, "--no-warnings"@, 1);
            lemma_texts_differ_at(t, "-pedantic"@, 2);
            lemma_texts_differ_at(t, "-pthread"@, 2);
            lemma_texts_differ_at(t, "-o"@, 1);
            lemma_texts_differ_at(t, "-Wp,"@, 1);
            lemma_texts_differ_at(t, "-Wl,"@, 1);
            lemma_texts_differ_at(t, "-std="@, 1);
            lemma_texts_differ_at(t, "-D"@, 1);
            lemma_texts_differ_at(t, "-I"@, 1);
            lemma_texts_differ_at(t, "-O"@, 1);
            lemma_texts_differ_at(t, "-march="@, 1);
            lemma_texts_differ_at(t, "-l"@, 1);
            lemma_texts_differ_at(t, "-L"@, 1);
            lemma_texts_differ_at(t, "-W"@, 1);
        },
        _ => {},
    }
    lemma_step_consumes(ts);
    let c = parse_step(ts)->Some_0.1;
    assert(parse_step(ts) == Some((seq![a], c)));
    assert(ts.skip(c as int) =~= Seq::<Seq<char>>::empty());
    assert(parse_all(ts.skip(c as int)) == Some(Seq::<ArgModel>::empty()));
    assert(seq![a] + Seq::<ArgModel>::empty() =~= seq![a]);
}

} // verus!

verus! {

/// No character of `s` is `c`.
pub open spec fn free_of(s: Seq<char>, c: char) -> bool {
    forall|i: int| 0 <= i < s.len() ==> s[i] != c
}

proof fn lemma_free_of_none(s: Seq<char>, c: char)
    requires
        free_of(s, c),
    ensures
        first_index_of(s, c) is None,
{
    lemma_first_index_of(s, c);
}

/// Text without the separator is one piece.
proof fn lemma_split_single(s: Seq<char>, c: char)
    requires
        free_of(s, c),
    ensures
        split_pieces(s, c) == seq![s],
{
    lemma_free_of_none(s, c);
}

/// Two texts without the separator, joined by it, are two pieces.
proof fn lemma_split_pair(a: Seq<char>, b: Seq<char>, c: char)
    requires
        free_of(a, c),
        free_of(b, c),
    ensures
        split_pieces(a + seq![c] + b, c) == seq![a, b],
{
    let s = a + seq![c] + b;
    lemma_first_index_of(s, c);
    assert(s[a.len() as int] == c);
    assert(first_index_of(s, c) == Some(a.len() as int)) by {
        if let Some(i) = first_index_of(s, c) {
            if i < a.len() {
                assert(s[i] == a[i]);
            }
        }
    }
    assert(s.subrange(0, a.len() as int) =~= a);
    assert(s.subrange(a.len() + 1 as int, s.len() as int) =~= b);
    lemma_split_single(b, c);
}

/// The values that a group of preprocessor or linker options can carry: no
/// separator and no quotation mark.
pub open spec fn group_value(v: Seq<char>) -> bool {
    free_of(v, ',') && free_of(v, '"') && free_of(v, '\'')
}

/// The arguments written inside a `-Wp,` or `-Wl,` group whose words read back
/// as themselves.
pub open spec fn plain_grouped(a: ArgModel) -> bool {
    match a {
        ArgModel::PrepMD | ArgModel::PrepMP => true,
        ArgModel::PrepMF(v) | ArgModel::LinkRpath(v) | ArgModel::LinkSoname(v) | ArgModel::LinkVersionScript(v) => group_value(v),
        _ => false,
    }
}

/// Collecting the word of a preprocessor or linker option gives the option back.
#[verifier::rlimit(80)]
pub proof fn law_collect_undoes_group_words(a: ArgModel)
    requires
        plain_grouped(a),
    ensures
        parse_all(arg_words(a)) == Some(seq![a]),
{
    reveal_strlit(",");
    reveal_strlit("-");
    reveal_strlit("--debug");
    reveal_strlit("--no-warnings");
    reveal_strlit("--print-");
    reveal_strlit("--shared");
    reveal_strlit("--static");
    reveal_strlit("--version-script");
    reveal_strlit("-D");
    reveal_strlit("-I");
    reveal_strlit("-L");
    reveal_strlit("-MD");
    reveal_strlit("-MF");
    reveal_strlit("-MP");
    reveal_strlit("-O");
    reveal_strlit("-W");
    reveal_strlit("-Wl,");
    reveal_strlit("-Wl,--version-script,");
    reveal_strlit("-Wl,-rpath,");
    reveal_strlit("-Wl,-soname,");
    reveal_strlit("-Wp,");
    reveal_strlit("-Wp,-MD");
    reveal_strlit("-Wp,-MF,");
    reveal_strlit("-Wp,-MP");
    reveal_strlit("-arch");
    reveal_strlit("-c");
    reveal_strlit("-fPIC");
    reveal_strlit("-fPIE");
    reveal_strlit("-fexceptions");
    reveal_strlit("-fno-PIC");
    reveal_strlit("-fno-PIE");
    reveal_strlit("-fno-exceptions");
    reveal_strlit("-fno-rtti");
    reveal_strlit("-frtti");
    reveal_strlit("-g");
    reveal_strlit("-isysroot");
    reveal_strlit("-l");
    reveal_strlit("-march=");
    reveal_strlit("-o");
    reveal_strlit("-pedantic");
    reveal_strlit("-print-");
    reveal_strlit("-pthread");
    reveal_strlit("-rpath");
    reveal_strlit("-shared");
    reveal_strlit("-soname");
    reveal_strlit("-static");
    reveal_strlit("-std=");
    reveal_strlit("-w");
    let ts = arg_words(a);
    match a {
        ArgModel::PrepMD => {
            let rest = "-MD"@;
            let t = "-Wp,"@ + rest;
            assert(ts[0] =~= t);
            lemma_word_with_prefix("-Wp,"@, rest);
            lemma_free_of_none(rest, '"');
            lemma_free_of_none(rest, '\'');
            lemma_split_single(rest, ',');
            let ps = seq![rest];

            lemma_texts_differ_at(t, "-c"@, 1);
            lemma_texts_differ_at(t, "-I"@, 1);
            lemma_texts_differ_at(t, "-isysroot"@, 1);
            lemma_texts_differ_at(t, "-l"@, 1);
            lemma_texts_differ_at(t, "-L"@, 1);
            lemma_texts_differ_at(t, "-arch"@, 1);
            lemma_texts_differ_at(t, "-g"@, 1);
            lemma_texts_differ_at(t, "--debug"@, 1);
            lemma_texts_differ_at(t, "-shared"@, 1);
            lemma_texts_differ_at(t, "--shared"@, 1);
            lemma_texts_differ_at(t, "-static"@, 1);
            lemma_texts_differ_at(t, "--static"@, 1);
            lemma_texts_differ_at(t, "-fPIC"@, 1);
            lemma_texts_differ_at(t, "-fno-PIC"@, 1);
            lemma_texts_differ_at(t, "-fPIE"@, 1);
            lemma_texts_differ_at(t, "-fno-PIE"@, 1);
            lemma_texts_differ_at(t, "-frtti"@, 1);
            lemma_texts_differ_at(t, "-fno-rtti"@, 1);
            lemma_texts_differ_at(t, "-fexceptions"@, 1);
            lemma_texts_differ_at(t, "-fno-exceptions"@, 1);
            lemma_texts_differ_at(t, "-w"@, 1);
            lemma_texts_differ_at(t, "--no-warnings"@, 1);
            lemma_texts_differ_at(t, "-pedantic"@, 1);
            lemma_texts_differ_at(t, "-pthread"@, 1);
            lemma_texts_differ_at(t, "-o"@, 1);
            assert(ps.skip(1) =~= Seq::<Seq<char>>::empty());
            assert(parse_sub(ps.skip(1), false) == Some(Seq::<ArgModel>::empty()));
            assert(seq![a] + Seq::<ArgModel>::empty() =~= seq![a]);
            assert(parse_sub(ps, false) == Some(seq![a]));
        },
        ArgModel::PrepMP => {
            let rest = "-MP"@;
            let t = "-Wp,"@ + rest;
            assert(ts[0] =~= t);
            lemma_word_with_prefix("-Wp,"@, rest);
            lemma_free_of_none(rest, '"');
            lemma_free_of_none(rest, '\'');
            lemma_split_single(rest, ',');
            let ps = seq![rest];
            lemma_texts_differ_at("-MP"@, "-MD"@, 2);
            lemma_texts_differ_at(t, "-c"@, 1);
            lemma_texts_differ_at(t, "-I"@, 1);
            lemma_texts_differ_at(t, "-isysroot"@, 1);
            lemma_texts_differ_at(t, "-l"@, 1);
            lemma_texts_differ_at(t, "-L"@, 1);
            lemma_texts_differ_at(t, "-arch"@, 1);
            lemma_texts_differ_at(t, "-g"@, 1);
            lemma_texts_differ_at(t, "--debug"@, 1);
            lemma_texts_differ_at(t, "-shared"@, 1);
            lemma_texts_differ_at(t, "--shared"@, 1);
            lemma_texts_differ_at(t, "-static"@, 1);
            lemma_texts_differ_at(t, "--static"@, 1);
            lemma_texts_differ_at(t, "-fPIC"@, 1);
            lemma_texts_differ_at(t, "-fno-PIC"@, 1);
            lemma_texts_differ_at(t, "-fPIE"@, 1);
            lemma_texts_differ_at(t, "-fno-PIE"@, 1);
            lemma_texts_differ_at(t, "-frtti"@, 1);
            lemma_texts_differ_at(t, "-fno-rtti"@, 1);
            lemma_texts_differ_at(t, "-fexceptions"@, 1);
            lemma_texts_differ_at(t, "-fno-exceptions"@, 1);
            lemma_texts_differ_at(t, "-w"@, 1);
            lemma_texts_differ_at(t, "--no-warnings"@, 1);
            lemma_texts_differ_at(t, "-pedantic"@, 1);
            lemma_texts_differ_at(t, "-pthread"@, 1);
            lemma_texts_differ_at(t, "-o"@, 1);
            assert(ps.skip(1) =~= Seq::<Seq<char>>::empty());
            assert(parse_sub(ps.skip(1), false) == Some(Seq::<ArgModel>::empty()));
            assert(seq![a] + Seq::<ArgModel>::empty() =~= seq![a]);
            assert(parse_sub(ps, false) == Some(seq![a]));
        },
        ArgModel::PrepMF(v) => {
            let rest = "-MF"@ + seq![','] + v;
            let t = "-Wp,"@ + rest;
            assert(ts[0] =~= t);
            lemma_word_with_prefix("-Wp,"@, rest);
            assert(free_of(rest, '"') && free_of(rest, '\'')) by {
                assert forall|i: int| 0 <= i < rest.len() implies rest[i] != '"' && rest[i] != '\'' by {
                    if i >= "-MF"@.len() + 1 {
                        assert(rest[i] == v[i - "-MF"@.len() - 1]);
                    }
                }
            }
            lemma_free_of_none(rest, '"');
            lemma_free_of_none(rest, '\'');
            lemma_split_pair("-MF"@, v, ',');
            let ps = seq!["-MF"@, v];
            lemma_texts_differ_at("-MF"@, "-MD"@, 2);
            lemma_texts_differ_at("-MF"@, "-MP"@, 2);
            lemma_texts_differ_at(t, "-c"@, 1);
            lemma_texts_differ_at(t, "-I"@, 1);
            lemma_texts_differ_at(t, "-isysroot"@, 1);
            lemma_texts_differ_at(t, "-l"@, 1);
            lemma_texts_differ_at(t, "-L"@, 1);
            lemma_texts_differ_at(t, "-arch"@, 1);
            lemma_texts_differ_at(t, "-g"@, 1);
            lemma_texts_differ_at(t, "--debug"@, 1);
            lemma_texts_differ_at(t, "-shared"@, 1);
            lemma_texts_differ_at(t, "--shared"@, 1);
            lemma_texts_differ_at(t, "-static"@, 1);
            lemma_texts_differ_at(t, "--static"@, 1);
            lemma_texts_differ_at(t, "-fPIC"@, 1);
            lemma_texts_differ_at(t, "-fno-PIC"@, 1);
            lemma_texts_differ_at(t, "-fPIE"@, 1);
            lemma_texts_differ_at(t, "-fno-PIE"@, 1);
            lemma_texts_differ_at(t, "-frtti"@, 1);
            lemma_texts_differ_at(t, "-fno-rtti"@, 1);
            lemma_texts_differ_at(t, "-fexceptions"@, 1);
            lemma_texts_differ_at(t, "-fno-exceptions"@, 1);
            lemma_texts_differ_at(t, "-w"@, 1);
            lemma_texts_differ_at(t, "--no-warnings"@, 1);
            lemma_texts_differ_at(t, "-pedantic"@, 1);
            lemma_texts_differ_at(t, "-pthread"@, 1);
            lemma_texts_differ_at(t, "-o"@, 1);
            assert(ps.skip(2) =~= Seq::<Seq<char>>::empty());
            assert(parse_sub(ps.skip(2), false) == Some(Seq::<ArgModel>::empty()));
            assert(seq![a] + Seq::<ArgModel>::empty() =~= seq![a]);
            assert(parse_sub(ps, false) == Some(seq![a]));
        },
        ArgModel::LinkRpath(v) => {
            let rest = "-rpath"@ + seq![','] + v;
            let t = "-Wl,"@ + rest;
            assert(ts[0] =~= t);
            lemma_word_with_prefix("-Wl,"@, rest);
            assert(free_of(rest, '"') && free_of(rest, '\'')) by {
                assert forall|i: int| 0 <= i < rest.len() implies rest[i] != '"' && rest[i] != '\'' by {
                    if i >= "-rpath"@.len() + 1 {
                        assert(rest[i] == v[i - "-rpath"@.len() - 1]);
                    }
                }
            }
            lemma_free_of_none(rest, '"');
            lemma_free_of_none(rest, '\'');
            lemma_split_pair("-rpath"@, v, ',');
            let ps = seq!["-rpath"@, v];

            lemma_texts_differ_at(t, "-c"@, 1);
            lemma_texts_differ_at(t, "-I"@, 1);
            lemma_texts_differ_at(t, "-isysroot"@, 1);
            lemma_texts_differ_at(t, "-l"@, 1);
            lemma_texts_differ_at(t, "-L"@, 1);
            lemma_texts_differ_at(t, "-arch"@, 1);
            lemma_texts_differ_at(t, "-g"@, 1);
            lemma_texts_differ_at(t, "--debug"@, 1);
            lemma_texts_differ_at(t, "-shared"@, 1);
            lemma_texts_differ_at(t, "--shared"@, 1);
            lemma_texts_differ_at(t, "-static"@, 1);
            lemma_texts_differ_at(t, "--static"@, 1);
            lemma_texts_differ_at(t, "-fPIC"@, 1);
            lemma_texts_differ_at(t, "-fno-PIC"@, 1);
            lemma_texts_differ_at(t, "-fPIE"@, 1);
            lemma_texts_differ_at(t, "-fno-PIE"@, 1);
            lemma_texts_differ_at(t, "-frtti"@, 1);
            lemma_texts_differ_at(t, "-fno-rtti"@, 1);
            lemma_texts_differ_at(t, "-fexceptions"@, 1);
            lemma_texts_differ_at(t, "-fno-exceptions"@, 1);
            lemma_texts_differ_at(t, "-w"@, 1);
            lemma_texts_differ_at(t, "--no-warnings"@, 1);
            lemma_texts_differ_at(t, "-pedantic"@, 1);
            lemma_texts_differ_at(t, "-pthread"@, 1);
            lemma_texts_differ_at(t, "-o"@, 1);
            lemma_texts_differ_at(t, "-Wp,"@, 2);
            assert(ps.skip(2) =~= Seq::<Seq<char>>::empty());
            assert(parse_sub(ps.skip(2), true) == Some(Seq::<ArgModel>::empty()));
            assert(seq![a] + Seq::<ArgModel>::empty() =~= seq![a]);
            assert(parse_sub(ps, true) == Some(seq![a]));
        },
        ArgModel::LinkSoname(v) => {
            let rest = "-soname"@ + seq![','] + v;
            let t = "-Wl,"@ + rest;
            assert(ts[0] =~= t);
            lemma_word_with_prefix("-Wl,"@, rest);
            assert(free_of(rest, '"') && free_of(rest, '\'')) by {
                assert forall|i: int| 0 <= i < rest.len() implies rest[i] != '"' && rest[i] != '\'' by {
                    if i >= "-soname"@.len() + 1 {
                        assert(rest[i] == v[i - "-soname"@.len() - 1]);
                    }
                }
            }
            lemma_free_of_none(rest, '"');
            lemma_free_of_none(rest, '\'');
            lemma_split_pair("-soname"@, v, ',');
            let ps = seq!["-soname"@, v];
            lemma_texts_differ_at("-soname"@, "-rpath"@, 1);
            lemma_texts_differ_at(t, "-c"@, 1);
            lemma_texts_differ_at(t, "-I"@, 1);
            lemma_texts_differ_at(t, "-isysroot"@, 1);
            lemma_texts_differ_at(t, "-l"@, 1);
            lemma_texts_differ_at(t, "-L"@, 1);
            lemma_texts_differ_at(t, "-arch"@, 1);
            lemma_texts_differ_at(t, "-g"@, 1);
            lemma_texts_differ_at(t, "--debug"@, 1);
            lemma_texts_differ_at(t, "-shared"@, 1);
            lemma_texts_differ_at(t, "--shared"@, 1);
            lemma_texts_differ_at(t, "-static"@, 1);
            lemma_texts_differ_at(t, "--static"@, 1);
            lemma_texts_differ_at(t, "-fPIC"@, 1);
            lemma_texts_differ_at(t, "-fno-PIC"@, 1);
            lemma_texts_differ_at(t, "-fPIE"@, 1);
            lemma_texts_differ_at(t, "-fno-PIE"@, 1);
            lemma_texts_differ_at(t, "-frtti"@, 1);
            lemma_texts_differ_at(t, "-fno-rtti"@, 1);
            lemma_texts_differ_at(t, "-fexceptions"@, 1);
            lemma_texts_differ_at(t, "-fno-exceptions"@, 1);
            lemma_texts_differ_at(t, "-w"@, 1);
            lemma_texts_differ_at(t, "--no-warnings"@, 1);
            lemma_texts_differ_at(t, "-pedantic"@, 1);
            lemma_texts_differ_at(t, "-pthread"@, 1);
            lemma_texts_differ_at(t, "-o"@, 1);
            lemma_texts_differ_at(t, "-Wp,"@, 2);
            assert(ps.skip(2) =~= Seq::<Seq<char>>::empty());
            assert(parse_sub(ps.skip(2), true) == Some(Seq::<ArgModel>::empty()));
            assert(seq![a] + Seq::<ArgModel>::empty() =~= seq![a]);
            assert(parse_sub(ps, true) == Some(seq![a]));
        },
        ArgModel::LinkVersionScript(v) => {
            let rest = "--version-script"@ + seq![','] + v;
            let t = "-Wl,"@ + rest;
            assert(ts[0] =~= t);
            lemma_word_with_prefix("-Wl,"@, rest);
            assert(free_of(rest, '"') && free_of(rest, '\'')) by {
                assert forall|i: int| 0 <= i < rest.len() implies rest[i] != '"' && rest[i] != '\'' by {
                    if i >= "--version-script"@.len() + 1 {
                        assert(rest[i] == v[i - "--version-script"@.len() - 1]);
                    }
                }
            }
            lemma_free_of_none(rest, '"');
            lemma_free_of_none(rest, '\'');
            lemma_split_pair("--version-script"@, v, ',');
            let ps = seq!["--version-script"@, v];
            lemma_texts_differ_at("--version-script"@, "-rpath"@, 1);
            lemma_texts_differ_at("--version-script"@, "-soname"@, 1);
            lemma_texts_differ_at(t, "-c"@, 1);
            lemma_texts_differ_at(t, "-I"@, 1);
            lemma_texts_differ_at(t, "-isysroot"@, 1);
            lemma_texts_differ_at(t, "-l"@, 1);
            lemma_texts_differ_at(t, "-L"@, 1);
            lemma_texts_differ_at(t, "-arch"@, 1);
            lemma_texts_differ_at(t, "-g"@, 1);
            lemma_texts_differ_at(t, "--debug"@, 1);
            lemma_texts_differ_at(t, "-shared"@, 1);
            lemma_texts_differ_at(t, "--shared"@, 1);
            lemma_texts_differ_at(t, "-static"@, 1);
            lemma_texts_differ_at(t, "--static"@, 1);
            lemma_texts_differ_at(t, "-fPIC"@, 1);
            lemma_texts_differ_at(t, "-fno-PIC"@, 1);
            lemma_texts_differ_at(t, "-fPIE"@, 1);
            lemma_texts_differ_at(t, "-fno-PIE"@, 1);
            lemma_texts_differ_at(t, "-frtti"@, 1);
            lemma_texts_differ_at(t, "-fno-rtti"@, 1);
            lemma_texts_differ_at(t, "-fexceptions"@, 1);
            lemma_texts_differ_at(t, "-fno-exceptions"@, 1);
            lemma_texts_differ_at(t, "-w"@, 1);
            lemma_texts_differ_at(t, "--no-warnings"@, 1);
            lemma_texts_differ_at(t, "-pedantic"@, 1);
            lemma_texts_differ_at(t, "-pthread"@, 1);
            lemma_texts_differ_at(t, "-o"@, 1);
            lemma_texts_differ_at(t, "-Wp,"@, 2);
            assert(ps.skip(2) =~= Seq::<Seq<char>>::empty());
            assert(parse_sub(ps.skip(2), true) == Some(Seq::<ArgModel>::empty()));
            assert(seq![a] + Seq::<ArgModel>::empty() =~= seq![a]);
            assert(parse_sub(ps, true) == Some(seq![a]));
        },
        _ => {},
    }
    lemma_step_consumes(ts);
    let c = parse_step(ts)->Some_0.1;
    assert(parse_step(ts) == Some((seq![a], c)));
    assert(ts.skip(c as int) =~= Seq::<Seq<char>>::empty());
    assert(parse_all(ts.skip(c as int)) == Some(Seq::<ArgModel>::empty()));
    assert(seq![a] + Seq::<ArgModel>::empty() =~= seq![a]);
}

} // verus!

verus! {

/// A word that is not an option is collected as an input.
pub proof fn law_input_words_collect(w: Seq<char>)
    requires
        !has_prefix(w, "-"@),
    ensures
        parse_all(seq![w]) == Some(seq![ArgModel::Input(w)]),
{
    let ts = seq![w];
    lemma_step_consumes(ts);
    assert(parse_step(ts) == Some((seq![ArgModel::Input(w)], 1nat)));
    assert(ts.skip(1) =~= Seq::<Seq<char>>::empty());
    assert(parse_all(ts.skip(1)) == Some(Seq::<ArgModel>::empty()));
    assert(seq![ArgModel::Input(w)] + Seq::<ArgModel>::empty() =~= seq![ArgModel::Input(w)]);
}

} // verus!
