//! The command registry and parser: commands are declared as data (a
//! name, typed parameters, optional sub-commands one level deep), and a
//! raw input line is parsed into a validated command instance or a
//! structured parse error. Parsing never panics and never mutates state.
//!
//! Tokenizing splits on spaces and tabs; a double quote suspends
//! splitting until the next double quote (an unterminated quote runs to
//! the end of the line). The first token must start with `/`.

use vstd::prelude::*;
use crate::jid::{
    first_index_of, has_char, is_first_index_of, lemma_first_index_exists,
    lemma_first_index_unique, parse_jid, spec_parse_jid, Jid, JidView,
};

verus! {

// ---------------------------------------------------------------------
// Tokenizing
// ---------------------------------------------------------------------

/// One step per character: `cur` is the token being built (if any),
/// `quoted` says whether a double quote is open, `acc` the finished
/// tokens. At the end of the line the pending token is flushed.
pub open spec fn spec_tokenize_from(
    s: Seq<char>,
    i: int,
    cur: Option<Seq<char>>,
    quoted: bool,
    acc: Seq<Seq<char>>,
) -> Seq<Seq<char>>
    recommends
        0 <= i <= s.len(),
    decreases s.len() - i,
{
    if i < 0 || i >= s.len() {
        match cur {
            Some(t) => acc.push(t),
            None => acc,
        }
    } else {
        let c = s[i];
        let started = match cur {
            Some(t) => t,
            None => Seq::<char>::empty(),
        };
        if quoted {
            if c == '"' {
                spec_tokenize_from(s, i + 1, Some(started), false, acc)
            } else {
                spec_tokenize_from(s, i + 1, Some(started.push(c)), true, acc)
            }
        } else {
            if c == ' ' || c == '\t' {
                match cur {
                    Some(t) => spec_tokenize_from(s, i + 1, None, false, acc.push(t)),
                    None => spec_tokenize_from(s, i + 1, None, false, acc),
                }
            } else if c == '"' {
                spec_tokenize_from(s, i + 1, Some(started), true, acc)
            } else {
                spec_tokenize_from(s, i + 1, Some(started.push(c)), false, acc)
            }
        }
    }
}

/// The tokens of an input line.
pub open spec fn spec_tokenize(s: Seq<char>) -> Seq<Seq<char>> {
    spec_tokenize_from(s, 0, None, false, Seq::empty())
}

/// Relies on `String`'s `FromIterator` impl: collecting characters
/// yields the string of exactly those characters, in order.
#[verifier::external_body]
fn chars_to_string(v: &Vec<char>) -> (r: String)
    ensures
        r@ == v@,
{
    v.iter().collect()
}

/// Split an input line into tokens, honouring double quotes.
pub fn tokenize(line: &str) -> (r: Vec<String>)
    ensures
        r@.map(|i: int, t: String| t@) == spec_tokenize(line@),
{
    let n: usize = line.unicode_len();
    let mut i: usize = 0;
    let mut cur: Option<Vec<char>> = None;
    let mut quoted: bool = false;
    let mut acc: Vec<String> = Vec::new();
    proof {
        assert(acc@.map(|k: int, t: String| t@) =~= Seq::<Seq<char>>::empty());
    }
    while i < n
        invariant
            i <= n,
            n == line@.len(),
            spec_tokenize(line@) == spec_tokenize_from(
                line@,
                i as int,
                match cur {
                    Some(t) => Some(t@),
                    None => None,
                },
                quoted,
                acc@.map(|k: int, t: String| t@),
            ),
        decreases n - i,
    {
        let ghost prev_acc = acc@.map(|k: int, t: String| t@);
        let c = line.get_char(i);
        if quoted {
            if c == '"' {
                quoted = false;
                if cur.is_none() {
                    cur = Some(Vec::new());
                }
            } else {
                let mut t = match cur {
                    Some(t) => t,
                    None => Vec::new(),
                };
                t.push(c);
                cur = Some(t);
            }
        } else {
            if c == ' ' || c == '\t' {
                match cur {
                    Some(t) => {
                        acc.push(chars_to_string(&t));
                        cur = None;
                        proof {
                            assert(acc@.map(|k: int, t2: String| t2@) =~= prev_acc.push(t@));
                        }
                    },
                    None => {},
                }
            } else if c == '"' {
                quoted = true;
                if cur.is_none() {
                    cur = Some(Vec::new());
                }
            } else {
                let mut t = match cur {
                    Some(t) => t,
                    None => Vec::new(),
                };
                t.push(c);
                cur = Some(t);
            }
        }
        i = i + 1;
    }
    match cur {
        Some(t) => {
            let ghost prev_acc = acc@.map(|k: int, t2: String| t2@);
            acc.push(chars_to_string(&t));
            proof {
                assert(acc@.map(|k: int, t2: String| t2@) =~= prev_acc.push(t@));
            }
        },
        None => {},
    }
    acc
}

// ---------------------------------------------------------------------
// Command definitions
// ---------------------------------------------------------------------

/// The type a parameter token is converted to.
#[derive(Clone, Copy, Debug, PartialEq, Eq, Structural)]
pub enum ArgType {
    /// Taken verbatim.
    Text,
    /// Parsed as an address.
    Address,
    /// `on` or `off`.
    Switch,
}

/// Abstract value of a parameter declaration.
pub struct ParamDefView {
    pub name: Seq<char>,
    pub typ: ArgType,
    pub required: bool,
    pub keyword: bool,
}

/// One declared parameter: positional, or a `name=value` keyword token.
pub struct ParamDef {
    pub name: String,
    pub typ: ArgType,
    /// Whether the command is ill-formed without it.
    pub required: bool,
    /// Whether it is given as a `name=value` token instead of by position.
    pub keyword: bool,
}

impl View for ParamDef {
    type V = ParamDefView;

    open spec fn view(&self) -> ParamDefView {
        ParamDefView {
            name: self.name@,
            typ: self.typ,
            required: self.required,
            keyword: self.keyword,
        }
    }
}

/// Abstract value of a sub-command declaration.
pub struct SubCommandView {
    pub name: Seq<char>,
    pub params: Seq<ParamDefView>,
}

/// One sub-command of a multi-level command.
pub struct SubCommand {
    pub name: String,
    pub help: String,
    pub params: Vec<ParamDef>,
}

impl View for SubCommand {
    type V = SubCommandView;

    open spec fn view(&self) -> SubCommandView {
        SubCommandView { name: self.name@, params: self.params@.map(|i: int, p: ParamDef| p@) }
    }
}

/// Abstract value of a command declaration.
pub struct CommandDefView {
    pub name: Seq<char>,
    pub params: Seq<ParamDefView>,
    pub children: Seq<SubCommandView>,
}

/// One declared command: a name, documentation, typed parameters, and
/// optionally named sub-commands (then the parameters are unused).
pub struct CommandDef {
    pub name: String,
    pub help: String,
    pub params: Vec<ParamDef>,
    pub children: Vec<SubCommand>,
}

impl View for CommandDef {
    type V = CommandDefView;

    open spec fn view(&self) -> CommandDefView {
        CommandDefView {
            name: self.name@,
            params: self.params@.map(|i: int, p: ParamDef| p@),
            children: self.children@.map(|i: int, c: SubCommand| c@),
        }
    }
}

// ---------------------------------------------------------------------
// Parse results and errors
// ---------------------------------------------------------------------

/// Abstract value of a converted argument.
pub enum ArgValueView {
    Text(Seq<char>),
    Address(JidView),
    Switch(bool),
}

/// A converted argument value.
pub enum ArgValue {
    Text(String),
    Address(Jid),
    Switch(bool),
}

impl View for ArgValue {
    type V = ArgValueView;

    open spec fn view(&self) -> ArgValueView {
        match self {
            ArgValue::Text(t) => ArgValueView::Text(t@),
            ArgValue::Address(j) => ArgValueView::Address(j@),
            ArgValue::Switch(b) => ArgValueView::Switch(*b),
        }
    }
}

/// Abstract value of one bound argument.
pub struct ParsedArgView {
    pub name: Seq<char>,
    pub value: ArgValueView,
}

/// One argument bound to a parameter name.
pub struct ParsedArg {
    pub name: String,
    pub value: ArgValue,
}

impl View for ParsedArg {
    type V = ParsedArgView;

    open spec fn view(&self) -> ParsedArgView {
        ParsedArgView { name: self.name@, value: self.value@ }
    }
}

/// Abstract value of a parsed command.
pub struct ParsedCommandView {
    pub path: Seq<Seq<char>>,
    pub args: Seq<ParsedArgView>,
}

/// A fully typed command instance: the resolved command path (name,
/// then sub-command name if any) and the bound arguments in input order.
pub struct ParsedCommand {
    pub path: Vec<String>,
    pub args: Vec<ParsedArg>,
}

impl View for ParsedCommand {
    type V = ParsedCommandView;

    open spec fn view(&self) -> ParsedCommandView {
        ParsedCommandView {
            path: self.path@.map(|i: int, t: String| t@),
            args: self.args@.map(|i: int, a: ParsedArg| a@),
        }
    }
}

/// Abstract value of a parse error.
pub enum ParseErrorView {
    Empty,
    NotACommand,
    UnknownCommand(Seq<char>),
    MissingParameter(Seq<char>),
    UnexpectedArgument(Seq<char>),
    BadValue { token: Seq<char>, param: Seq<char>, expected: ArgType },
}

/// Why an input line is not a command: the offending token and the
/// expected shape, enough to render a usage message.
#[derive(Debug)]
pub enum ParseError {
    /// The line holds no token.
    Empty,
    /// The first token does not start with `/`.
    NotACommand,
    /// No command or sub-command of that name.
    UnknownCommand(String),
    /// A required parameter (or the sub-command of the named command)
    /// is missing.
    MissingParameter(String),
    /// A token with no parameter left to bind it to.
    UnexpectedArgument(String),
    /// A token that does not convert to the parameter's type.
    BadValue { token: String, param: String, expected: ArgType },
}

impl View for ParseError {
    type V = ParseErrorView;

    open spec fn view(&self) -> ParseErrorView {
        match self {
            ParseError::Empty => ParseErrorView::Empty,
            ParseError::NotACommand => ParseErrorView::NotACommand,
            ParseError::UnknownCommand(t) => ParseErrorView::UnknownCommand(t@),
            ParseError::MissingParameter(t) => ParseErrorView::MissingParameter(t@),
            ParseError::UnexpectedArgument(t) => ParseErrorView::UnexpectedArgument(t@),
            ParseError::BadValue { token, param, expected } => ParseErrorView::BadValue {
                token: token@,
                param: param@,
                expected: *expected,
            },
        }
    }
}

// ---------------------------------------------------------------------
// Parsing
// ---------------------------------------------------------------------

/// What converting one token to the given type yields.
pub open spec fn spec_convert(typ: ArgType, tok: Seq<char>) -> Result<ArgValueView, ()> {
    match typ {
        ArgType::Text => Ok(ArgValueView::Text(tok)),
        ArgType::Address => match spec_parse_jid(tok) {
            Ok(j) => Ok(ArgValueView::Address(j)),
            Err(_) => Err(()),
        },
        ArgType::Switch => if tok == "on"@ {
            Ok(ArgValueView::Switch(true))
        } else if tok == "off"@ {
            Ok(ArgValueView::Switch(false))
        } else {
            Err(())
        },
    }
}

fn convert(typ: ArgType, tok: &String) -> (r: Result<ArgValue, ()>)
    ensures
        match r {
            Ok(v) => spec_convert(typ, tok@) == Ok::<ArgValueView, ()>(v@),
            Err(_) => spec_convert(typ, tok@) == Err::<ArgValueView, ()>(()),
        },
{
    match typ {
        ArgType::Text => Ok(ArgValue::Text(tok.clone())),
        ArgType::Address => match parse_jid(tok.as_str()) {
            Ok(j) => Ok(ArgValue::Address(j)),
            Err(_) => Err(()),
        },
        ArgType::Switch => {
            if *tok == String::from_str("on") {
                Ok(ArgValue::Switch(true))
            } else if *tok == String::from_str("off") {
                Ok(ArgValue::Switch(false))
            } else {
                Err(())
            }
        },
    }
}

/// The first keyword parameter with the given name, from position `j` on.
pub open spec fn spec_find_keyword(
    params: Seq<ParamDefView>,
    j: int,
    key: Seq<char>,
) -> Option<ParamDefView>
    decreases params.len() - j,
{
    if j < 0 || j >= params.len() {
        None
    } else if params[j].keyword && params[j].name == key {
        Some(params[j])
    } else {
        spec_find_keyword(params, j + 1, key)
    }
}

fn find_keyword<'a>(params: &'a Vec<ParamDef>, j: usize, key: &String) -> (r: Option<&'a ParamDef>)
    requires
        j <= params@.len(),
    ensures
        match r {
            Some(p) => spec_find_keyword(params@.map(|i: int, p2: ParamDef| p2@), j as int, key@)
                == Some(p@),
            None => spec_find_keyword(params@.map(|i: int, p2: ParamDef| p2@), j as int, key@)
                is None,
        },
    decreases params@.len() - j,
{
    if j >= params.len() {
        None
    } else if params[j].keyword && params[j].name == *key {
        Some(&params[j])
    } else {
        find_keyword(params, j + 1, key)
    }
}

/// The `k`-th positional parameter, counting from position `j` on.
pub open spec fn spec_nth_positional(
    params: Seq<ParamDefView>,
    j: int,
    k: int,
) -> Option<ParamDefView>
    decreases params.len() - j,
{
    if j < 0 || j >= params.len() {
        None
    } else if !params[j].keyword {
        if k == 0 {
            Some(params[j])
        } else {
            spec_nth_positional(params, j + 1, k - 1)
        }
    } else {
        spec_nth_positional(params, j + 1, k)
    }
}

fn nth_positional<'a>(params: &'a Vec<ParamDef>, j: usize, k: usize) -> (r: Option<&'a ParamDef>)
    requires
        j <= params@.len(),
    ensures
        match r {
            Some(p) => spec_nth_positional(
                params@.map(|i: int, p2: ParamDef| p2@),
                j as int,
                k as int,
            ) == Some(p@),
            None => spec_nth_positional(
                params@.map(|i: int, p2: ParamDef| p2@),
                j as int,
                k as int,
            ) is None,
        },
    decreases params@.len() - j,
{
    if j >= params.len() {
        None
    } else if !params[j].keyword {
        if k == 0 {
            Some(&params[j])
        } else {
            nth_positional(params, j + 1, k - 1)
        }
    } else {
        nth_positional(params, j + 1, k)
    }
}

/// Whether an argument named `name` was bound.
pub open spec fn spec_args_contain(args: Seq<ParsedArgView>, j: int, name: Seq<char>) -> bool
    decreases args.len() - j,
{
    if j < 0 || j >= args.len() {
        false
    } else if args[j].name == name {
        true
    } else {
        spec_args_contain(args, j + 1, name)
    }
}

fn args_contain(args: &Vec<ParsedArg>, j: usize, name: &String) -> (r: bool)
    requires
        j <= args@.len(),
    ensures
        r == spec_args_contain(args@.map(|i: int, a: ParsedArg| a@), j as int, name@),
    decreases args@.len() - j,
{
    if j >= args.len() {
        false
    } else if args[j].name == *name {
        true
    } else {
        args_contain(args, j + 1, name)
    }
}

/// The first required parameter, from `j` on, that is not bound in `args`.
pub open spec fn spec_check_required(
    params: Seq<ParamDefView>,
    j: int,
    args: Seq<ParsedArgView>,
) -> Result<(), ParseErrorView>
    decreases params.len() - j,
{
    if j < 0 || j >= params.len() {
        Ok(())
    } else if params[j].required && !spec_args_contain(args, 0, params[j].name) {
        Err(ParseErrorView::MissingParameter(params[j].name))
    } else {
        spec_check_required(params, j + 1, args)
    }
}

fn check_required(params: &Vec<ParamDef>, j: usize, args: &Vec<ParsedArg>) -> (r: Result<
    (),
    ParseError,
>)
    requires
        j <= params@.len(),
    ensures
        ({
            let s = spec_check_required(
                params@.map(|i: int, p: ParamDef| p@),
                j as int,
                args@.map(|i: int, a: ParsedArg| a@),
            );
            match r {
                Ok(_) => s == Ok::<(), ParseErrorView>(()),
                Err(e) => s == Err::<(), ParseErrorView>(e@),
            }
        }),
    decreases params@.len() - j,
{
    if j >= params.len() {
        Ok(())
    } else if params[j].required && !args_contain(args, 0, &params[j].name) {
        Err(ParseError::MissingParameter(params[j].name.clone()))
    } else {
        check_required(params, j + 1, args)
    }
}

/// Bind the tokens from position `i` on: a `name=value` token naming a
/// keyword parameter binds it; any other token binds the next positional
/// parameter (`next_pos` counts those already bound). At the end every
/// required parameter must be bound.
pub open spec fn spec_parse_args(
    params: Seq<ParamDefView>,
    tokens: Seq<Seq<char>>,
    i: int,
    next_pos: int,
    acc: Seq<ParsedArgView>,
) -> Result<Seq<ParsedArgView>, ParseErrorView>
    decreases tokens.len() - i,
{
    if i < 0 || i >= tokens.len() {
        match spec_check_required(params, 0, acc) {
            Ok(_) => Ok(acc),
            Err(e) => Err(e),
        }
    } else {
        let t = tokens[i];
        let keyword_param = if has_char(t, '=') {
            spec_find_keyword(params, 0, t.take(first_index_of(t, '=')))
        } else {
            None
        };
        match keyword_param {
            Some(p) => {
                let val = t.skip(first_index_of(t, '=') + 1);
                match spec_convert(p.typ, val) {
                    Ok(v) => spec_parse_args(
                        params,
                        tokens,
                        i + 1,
                        next_pos,
                        acc.push(ParsedArgView { name: p.name, value: v }),
                    ),
                    Err(_) => Err(
                        ParseErrorView::BadValue { token: t, param: p.name, expected: p.typ },
                    ),
                }
            },
            None => match spec_nth_positional(params, 0, next_pos) {
                Some(p) => match spec_convert(p.typ, t) {
                    Ok(v) => spec_parse_args(
                        params,
                        tokens,
                        i + 1,
                        next_pos + 1,
                        acc.push(ParsedArgView { name: p.name, value: v }),
                    ),
                    Err(_) => Err(
                        ParseErrorView::BadValue { token: t, param: p.name, expected: p.typ },
                    ),
                },
                None => Err(ParseErrorView::UnexpectedArgument(t)),
            },
        }
    }
}

fn parse_args(
    params: &Vec<ParamDef>,
    tokens: &Vec<String>,
    i: usize,
    next_pos: usize,
    acc: Vec<ParsedArg>,
) -> (r: Result<Vec<ParsedArg>, ParseError>)
    requires
        i <= tokens@.len(),
        next_pos <= i,
    ensures
        ({
            let s = spec_parse_args(
                params@.map(|k: int, p: ParamDef| p@),
                tokens@.map(|k: int, t: String| t@),
                i as int,
                next_pos as int,
                acc@.map(|k: int, a: ParsedArg| a@),
            );
            match r {
                Ok(out) => s == Ok::<Seq<ParsedArgView>, ParseErrorView>(
                    out@.map(|k: int, a: ParsedArg| a@),
                ),
                Err(e) => s == Err::<Seq<ParsedArgView>, ParseErrorView>(e@),
            }
        }),
    decreases tokens@.len() - i,
{
    let ghost tokens_v = tokens@.map(|k: int, t: String| t@);
    if i >= tokens.len() {
        match check_required(params, 0, &acc) {
            Ok(_) => Ok(acc),
            Err(e) => Err(e),
        }
    } else {
        let t = &tokens[i];
        let eq_pos = crate::jid::find_char(t.as_str(), '=');
        let keyword_param: Option<&ParamDef> = match eq_pos {
            Some(e) => {
                proof {
                    lemma_first_index_exists(t@, '=');
                    lemma_first_index_unique(t@, '=', e as int, first_index_of(t@, '='));
                }
                let key = String::from_str(t.as_str().substring_char(0, e));
                find_keyword(params, 0, &key)
            },
            None => None,
        };
        match keyword_param {
            Some(p) => {
                let e = match eq_pos {
                    Some(e) => e,
                    None => 0,
                };
                let n: usize = t.as_str().unicode_len();
                let val = String::from_str(t.as_str().substring_char(e + 1, n));
                match convert(p.typ, &val) {
                    Ok(v) => {
                        let name = p.name.clone();
                        let typ = p.typ;
                        let ghost prev = acc@.map(|k: int, a: ParsedArg| a@);
                        let mut acc2 = acc;
                        acc2.push(ParsedArg { name, value: v });
                        proof {
                            assert(acc2@.map(|k: int, a: ParsedArg| a@) =~= prev.push(
                                ParsedArgView { name: p@.name, value: v@ },
                            ));
                        }
                        parse_args(params, tokens, i + 1, next_pos, acc2)
                    },
                    Err(_) => Err(
                        ParseError::BadValue {
                            token: t.clone(),
                            param: p.name.clone(),
                            expected: p.typ,
                        },
                    ),
                }
            },
            None => match nth_positional(params, 0, next_pos) {
                Some(p) => match convert(p.typ, t) {
                    Ok(v) => {
                        let name = p.name.clone();
                        let ghost prev = acc@.map(|k: int, a: ParsedArg| a@);
                        let mut acc2 = acc;
                        acc2.push(ParsedArg { name, value: v });
                        proof {
                            assert(acc2@.map(|k: int, a: ParsedArg| a@) =~= prev.push(
                                ParsedArgView { name: p@.name, value: v@ },
                            ));
                        }
                        parse_args(params, tokens, i + 1, next_pos + 1, acc2)
                    },
                    Err(_) => Err(
                        ParseError::BadValue {
                            token: t.clone(),
                            param: p.name.clone(),
                            expected: p.typ,
                        },
                    ),
                },
                None => Err(ParseError::UnexpectedArgument(t.clone())),
            },
        }
    }
}

/// The first command declaration with the given name, from `j` on.
pub open spec fn spec_find_def(
    defs: Seq<CommandDefView>,
    j: int,
    name: Seq<char>,
) -> Option<CommandDefView>
    decreases defs.len() - j,
{
    if j < 0 || j >= defs.len() {
        None
    } else if defs[j].name == name {
        Some(defs[j])
    } else {
        spec_find_def(defs, j + 1, name)
    }
}

fn find_def<'a>(defs: &'a Vec<CommandDef>, j: usize, name: &String) -> (r: Option<&'a CommandDef>)
    requires
        j <= defs@.len(),
    ensures
        match r {
            Some(d) => spec_find_def(defs@.map(|i: int, d2: CommandDef| d2@), j as int, name@)
                == Some(d@),
            None => spec_find_def(defs@.map(|i: int, d2: CommandDef| d2@), j as int, name@)
                is None,
        },
    decreases defs@.len() - j,
{
    if j >= defs.len() {
        None
    } else if defs[j].name == *name {
        Some(&defs[j])
    } else {
        find_def(defs, j + 1, name)
    }
}

/// The first sub-command with the given name, from `j` on.
pub open spec fn spec_find_sub(
    subs: Seq<SubCommandView>,
    j: int,
    name: Seq<char>,
) -> Option<SubCommandView>
    decreases subs.len() - j,
{
    if j < 0 || j >= subs.len() {
        None
    } else if subs[j].name == name {
        Some(subs[j])
    } else {
        spec_find_sub(subs, j + 1, name)
    }
}

fn find_sub<'a>(subs: &'a Vec<SubCommand>, j: usize, name: &String) -> (r: Option<&'a SubCommand>)
    requires
        j <= subs@.len(),
    ensures
        match r {
            Some(s) => spec_find_sub(subs@.map(|i: int, s2: SubCommand| s2@), j as int, name@)
                == Some(s@),
            None => spec_find_sub(subs@.map(|i: int, s2: SubCommand| s2@), j as int, name@)
                is None,
        },
    decreases subs@.len() - j,
{
    if j >= subs.len() {
        None
    } else if subs[j].name == *name {
        Some(&subs[j])
    } else {
        find_sub(subs, j + 1, name)
    }
}

/// What parsing an input line against the declared commands yields.
pub open spec fn spec_parse(defs: Seq<CommandDefView>, line: Seq<char>) -> Result<
    ParsedCommandView,
    ParseErrorView,
> {
    let tokens = spec_tokenize(line);
    if tokens.len() == 0 {
        Err(ParseErrorView::Empty)
    } else if tokens[0].len() < 2 || tokens[0][0] != '/' {
        Err(ParseErrorView::NotACommand)
    } else {
        let name = tokens[0].skip(1);
        match spec_find_def(defs, 0, name) {
            None => Err(ParseErrorView::UnknownCommand(name)),
            Some(def) => {
                if def.children.len() > 0 {
                    if tokens.len() < 2 {
                        Err(ParseErrorView::MissingParameter(def.name))
                    } else {
                        match spec_find_sub(def.children, 0, tokens[1]) {
                            None => Err(ParseErrorView::UnknownCommand(tokens[1])),
                            Some(sub) => match spec_parse_args(
                                sub.params,
                                tokens,
                                2,
                                0,
                                Seq::empty(),
                            ) {
                                Ok(args) => Ok(
                                    ParsedCommandView { path: seq![name, sub.name], args },
                                ),
                                Err(e) => Err(e),
                            },
                        }
                    }
                } else {
                    match spec_parse_args(def.params, tokens, 1, 0, Seq::empty()) {
                        Ok(args) => Ok(ParsedCommandView { path: seq![name], args }),
                        Err(e) => Err(e),
                    }
                }
            },
        }
    }
}

/// Parse one input line against the declared commands, yielding a fully
/// typed command instance or a structured parse error.
pub fn parse(defs: &Vec<CommandDef>, line: &str) -> (r: Result<ParsedCommand, ParseError>)
    ensures
        ({
            let s = spec_parse(defs@.map(|i: int, d: CommandDef| d@), line@);
            match r {
                Ok(p) => s == Ok::<ParsedCommandView, ParseErrorView>(p@),
                Err(e) => s == Err::<ParsedCommandView, ParseErrorView>(e@),
            }
        }),
{
    let tokens = tokenize(line);
    if tokens.len() == 0 {
        return Err(ParseError::Empty);
    }
    let first_len: usize = tokens[0].as_str().unicode_len();
    if first_len < 2 || tokens[0].as_str().get_char(0) != '/' {
        return Err(ParseError::NotACommand);
    }
    let name = String::from_str(tokens[0].as_str().substring_char(1, first_len));
    proof {
        assert(name@ =~= spec_tokenize(line@)[0].skip(1));
    }
    match find_def(defs, 0, &name) {
        None => Err(ParseError::UnknownCommand(name)),
        Some(def) => {
            if def.children.len() > 0 {
                if tokens.len() < 2 {
                    Err(ParseError::MissingParameter(def.name.clone()))
                } else {
                    match find_sub(&def.children, 0, &tokens[1]) {
                        None => Err(ParseError::UnknownCommand(tokens[1].clone())),
                        Some(sub) => {
                            let acc0: Vec<ParsedArg> = Vec::new();
                            proof {
                                assert(acc0@.map(|k: int, a: ParsedArg| a@)
                                    =~= Seq::<ParsedArgView>::empty());
                            }
                            match parse_args(&sub.params, &tokens, 2, 0, acc0) {
                                Ok(args) => {
                                    let mut path: Vec<String> = Vec::new();
                                    path.push(name);
                                    path.push(sub.name.clone());
                                    let pc = ParsedCommand { path, args };
                                    proof {
                                        assert(pc@.path =~= seq![
                                            spec_tokenize(line@)[0].skip(1),
                                            sub@.name,
                                        ]);
                                    }
                                    Ok(pc)
                                },
                                Err(e) => Err(e),
                            }
                        },
                    }
                }
            } else {
                let acc0: Vec<ParsedArg> = Vec::new();
                proof {
                    assert(acc0@.map(|k: int, a: ParsedArg| a@)
                        =~= Seq::<ParsedArgView>::empty());
                }
                match parse_args(&def.params, &tokens, 1, 0, acc0) {
                    Ok(args) => {
                        let mut path: Vec<String> = Vec::new();
                        path.push(name);
                        let pc = ParsedCommand { path, args };
                        proof {
                            assert(pc@.path =~= seq![spec_tokenize(line@)[0].skip(1)]);
                        }
                        Ok(pc)
                    },
                    Err(e) => Err(e),
                }
            }
        },
    }
}

/// Why a resolved command's handler refused to run.
#[derive(Clone, Copy, Debug, PartialEq, Eq, Structural)]
pub enum CommandError {
    /// The parsed command does not have the shape the handler serves.
    BadCommand,
    /// The active backend does not implement the operation.
    Unsupported,
}

/// The value of the first argument bound under `name`, from `j` on.
pub open spec fn spec_get_arg(
    args: Seq<ParsedArgView>,
    j: int,
    name: Seq<char>,
) -> Option<ArgValueView>
    decreases args.len() - j,
{
    if j < 0 || j >= args.len() {
        None
    } else if args[j].name == name {
        Some(args[j].value)
    } else {
        spec_get_arg(args, j + 1, name)
    }
}

impl ParsedCommand {
    /// The value bound to the given parameter name, if any (first
    /// binding wins).
    pub fn get<'a>(&'a self, name: &String) -> (r: Option<&'a ArgValue>)
        ensures
            match r {
                Some(v) => spec_get_arg(self@.args, 0, name@) == Some(v@),
                None => spec_get_arg(self@.args, 0, name@) is None,
            },
    {
        let mut j: usize = 0;
        while j < self.args.len()
            invariant
                j <= self.args@.len(),
                spec_get_arg(self@.args, 0, name@) == spec_get_arg(self@.args, j as int, name@),
            decreases self.args@.len() - j,
        {
            if self.args[j].name == *name {
                return Some(&self.args[j].value);
            }
            j = j + 1;
        }
        None
    }
}

} // verus!
