//! Argument coercion: typed values from prefix text tokens or from interaction option values.

use vstd::prelude::*;
use crate::command::{CommandParameter, IntKind, ParameterType};
use crate::text::{
    boolean_of, chars_of, integer_value, is_decimal_literal, is_decimal_literal_exec,
    is_integer_literal, is_wrapped, mention_id, parse_boolean, parse_integer, parse_mention,
    parse_snowflake, snowflake, views_of, wrapped_body, IntegerError,
};

verus! {

/// A coerced argument value.
///
/// Floating-point values are kept as their validated decimal text; turning that text into a
/// float is left to the caller.
#[derive(Clone, Debug)]
pub enum ArgValue {
    Text(String),
    Boolean(bool),
    Integer(i128),
    Float(String),
    User(u64),
    Channel(u64),
    Role(u64),
}

pub enum ArgValueView {
    Text(Seq<char>),
    Boolean(bool),
    Integer(int),
    Float(Seq<char>),
    User(u64),
    Channel(u64),
    Role(u64),
}

impl View for ArgValue {
    type V = ArgValueView;

    open spec fn view(&self) -> ArgValueView {
        match self {
            ArgValue::Text(s) => ArgValueView::Text(s@),
            ArgValue::Boolean(b) => ArgValueView::Boolean(*b),
            ArgValue::Integer(i) => ArgValueView::Integer(*i as int),
            ArgValue::Float(s) => ArgValueView::Float(s@),
            ArgValue::User(id) => ArgValueView::User(*id),
            ArgValue::Channel(id) => ArgValueView::Channel(*id),
            ArgValue::Role(id) => ArgValueView::Role(*id),
        }
    }
}

pub open spec fn arg_views(v: Seq<ArgValue>) -> Seq<ArgValueView> {
    v.map_values(|a: ArgValue| a@)
}

/// What one parameter received.
#[derive(Clone, Debug)]
pub enum ParsedArg {
    Value(ArgValue),
    /// An optional parameter left out.
    Absent,
    /// The values of a variadic parameter.
    List(Vec<ArgValue>),
}

pub enum ParsedArgView {
    Value(ArgValueView),
    Absent,
    List(Seq<ArgValueView>),
}

impl View for ParsedArg {
    type V = ParsedArgView;

    open spec fn view(&self) -> ParsedArgView {
        match self {
            ParsedArg::Value(v) => ParsedArgView::Value(v@),
            ParsedArg::Absent => ParsedArgView::Absent,
            ParsedArg::List(vs) => ParsedArgView::List(arg_views(vs@)),
        }
    }
}

pub open spec fn parsed_views(v: Seq<ParsedArg>) -> Seq<ParsedArgView> {
    v.map_values(|a: ParsedArg| a@)
}

/// Shape an interaction value was expected to have.
#[derive(Clone, Copy, Debug, PartialEq, Eq, Structural)]
pub enum ValueShape {
    /// Any value: a required option was missing.
    Present,
    String,
    Integer,
    Number,
    Boolean,
    /// A platform id as a string of digits.
    Id,
}

/// Why coercion failed.
#[derive(Clone, Debug)]
pub enum ArgumentError {
    /// User input did not parse for `parameter`; `input` is the text (empty when input ran out).
    Parse { parameter: String, input: String },
    /// An integer for `parameter` lies outside the range of its type.
    IntegerOutOfBounds { parameter: String },
    /// An interaction value has the wrong shape: client and schema disagree.
    StructureMismatch { parameter: String, expected: ValueShape },
    /// Text remained after the last parameter; `input` is the first token left.
    TooManyArguments { input: String },
}

pub enum ArgumentErrorView {
    Parse { parameter: Seq<char>, input: Seq<char> },
    IntegerOutOfBounds { parameter: Seq<char> },
    StructureMismatch { parameter: Seq<char>, expected: ValueShape },
    TooManyArguments { input: Seq<char> },
}

impl View for ArgumentError {
    type V = ArgumentErrorView;

    open spec fn view(&self) -> ArgumentErrorView {
        match self {
            ArgumentError::Parse { parameter, input } => ArgumentErrorView::Parse {
                parameter: parameter@,
                input: input@,
            },
            ArgumentError::IntegerOutOfBounds { parameter } => ArgumentErrorView::IntegerOutOfBounds {
                parameter: parameter@,
            },
            ArgumentError::StructureMismatch { parameter, expected } => ArgumentErrorView::StructureMismatch {
                parameter: parameter@,
                expected: *expected,
            },
            ArgumentError::TooManyArguments { input } => ArgumentErrorView::TooManyArguments {
                input: input@,
            },
        }
    }
}

pub open spec fn result_view(r: Result<Vec<ParsedArg>, ArgumentError>) -> Result<
    Seq<ParsedArgView>,
    ArgumentErrorView,
> {
    match r {
        Ok(v) => Ok(parsed_views(v@)),
        Err(e) => Err(e@),
    }
}

/// Why a single value did not coerce.
#[derive(Clone, Copy, Debug, PartialEq, Eq, Structural)]
pub enum ValueError {
    Invalid,
    OutOfBounds,
}

/// Inclusive range of an integer type.
pub open spec fn int_bounds(k: IntKind) -> (int, int) {
    match k {
        IntKind::I8 => (i8::MIN as int, i8::MAX as int),
        IntKind::I16 => (i16::MIN as int, i16::MAX as int),
        IntKind::I32 => (i32::MIN as int, i32::MAX as int),
        IntKind::I64 => (i64::MIN as int, i64::MAX as int),
        IntKind::U8 => (0, u8::MAX as int),
        IntKind::U16 => (0, u16::MAX as int),
        IntKind::U32 => (0, u32::MAX as int),
        IntKind::U64 => (0, u64::MAX as int),
    }
}

fn int_bounds_exec(k: IntKind) -> (r: (i128, i128))
    ensures
        r.0 as int == int_bounds(k).0,
        r.1 as int == int_bounds(k).1,
{
    match k {
        IntKind::I8 => (i8::MIN as i128, i8::MAX as i128),
        IntKind::I16 => (i16::MIN as i128, i16::MAX as i128),
        IntKind::I32 => (i32::MIN as i128, i32::MAX as i128),
        IntKind::I64 => (i64::MIN as i128, i64::MAX as i128),
        IntKind::U8 => (0, u8::MAX as i128),
        IntKind::U16 => (0, u16::MAX as i128),
        IntKind::U32 => (0, u32::MAX as i128),
        IntKind::U64 => (0, u64::MAX as i128),
    }
}

/// An integer of kind `k` written in `s`.
pub open spec fn integer_of(k: IntKind, s: Seq<char>) -> Result<int, ValueError> {
    if !is_integer_literal(s) {
        Err(ValueError::Invalid)
    } else if int_bounds(k).0 <= integer_value(s) <= int_bounds(k).1 {
        Ok(integer_value(s))
    } else {
        Err(ValueError::OutOfBounds)
    }
}

pub open spec fn user_opener() -> Seq<char> {
    seq!['<', '@']
}

pub open spec fn nick_opener() -> Seq<char> {
    seq!['<', '@', '!']
}

pub open spec fn channel_opener() -> Seq<char> {
    seq!['<', '#']
}

pub open spec fn role_opener() -> Seq<char> {
    seq!['<', '@', '&']
}

/// A user id: digits, `<@digits>` or `<@!digits>`.
pub open spec fn user_id_of(s: Seq<char>) -> Option<u64> {
    if is_wrapped(s, nick_opener()) {
        snowflake(wrapped_body(s, nick_opener()))
    } else {
        mention_id(s, user_opener())
    }
}

/// The value of kind `kind` that the text token `s` denotes.
pub open spec fn text_value(kind: ParameterType, s: Seq<char>) -> Result<ArgValueView, ValueError> {
    match kind {
        ParameterType::Text => Ok(ArgValueView::Text(s)),
        ParameterType::Boolean => match boolean_of(s) {
            Some(b) => Ok(ArgValueView::Boolean(b)),
            None => Err(ValueError::Invalid),
        },
        ParameterType::Integer(k) => match integer_of(k, s) {
            Ok(v) => Ok(ArgValueView::Integer(v)),
            Err(e) => Err(e),
        },
        ParameterType::Float(_) => if is_decimal_literal(s) {
            Ok(ArgValueView::Float(s))
        } else {
            Err(ValueError::Invalid)
        },
        ParameterType::User => match user_id_of(s) {
            Some(i) => Ok(ArgValueView::User(i)),
            None => Err(ValueError::Invalid),
        },
        ParameterType::Channel => match mention_id(s, channel_opener()) {
            Some(i) => Ok(ArgValueView::Channel(i)),
            None => Err(ValueError::Invalid),
        },
        ParameterType::Role => match mention_id(s, role_opener()) {
            Some(i) => Ok(ArgValueView::Role(i)),
            None => Err(ValueError::Invalid),
        },
    }
}

fn parse_integer_of(k: IntKind, cs: &Vec<char>) -> (r: Result<i128, ValueError>)
    ensures
        match integer_of(k, cs@) {
            Ok(v) => r == Ok::<i128, ValueError>(v as i128),
            Err(e) => r == Err::<i128, ValueError>(e),
        },
{
    let (min, max) = int_bounds_exec(k);
    match parse_integer(cs, min, max) {
        Ok(v) => Ok(v),
        Err(IntegerError::Invalid) => Err(ValueError::Invalid),
        Err(IntegerError::OutOfBounds) => Err(ValueError::OutOfBounds),
    }
}

fn parse_user_id(cs: &Vec<char>) -> (r: Option<u64>)
    ensures
        r == user_id_of(cs@),
{
    let nick = vec!['<', '@', '!'];
    let user = vec!['<', '@'];
    assert(nick@ =~= nick_opener());
    assert(user@ =~= user_opener());
    if cs.len() > 1 && cs.len() - 1 > nick.len() && cs[0] == '<' && cs[1] == '@' && cs[2] == '!'
        && cs[cs.len() - 1] == '>' {
        assert(cs@.take(3) =~= nick_opener());
        parse_mention(cs, &nick)
    } else {
        assert(!is_wrapped(cs@, nick_opener())) by {
            if is_wrapped(cs@, nick_opener()) {
                assert(cs@.take(3)[0] == '<' && cs@.take(3)[1] == '@' && cs@.take(3)[2] == '!');
            }
        }
        parse_mention(cs, &user)
    }
}

/// Coerces one text token to a value of kind `kind`.
pub fn parse_text_value(kind: ParameterType, token: &String) -> (r: Result<ArgValue, ValueError>)
    ensures
        match r {
            Ok(v) => text_value(kind, token@) == Ok::<ArgValueView, ValueError>(v@),
            Err(e) => text_value(kind, token@) == Err::<ArgValueView, ValueError>(e),
        },
{
    let cs = chars_of(token.as_str());
    match kind {
        ParameterType::Text => Ok(ArgValue::Text(token.clone())),
        ParameterType::Boolean => match parse_boolean(&cs) {
            Some(b) => Ok(ArgValue::Boolean(b)),
            None => Err(ValueError::Invalid),
        },
        ParameterType::Integer(k) => match parse_integer_of(k, &cs) {
            Ok(v) => Ok(ArgValue::Integer(v)),
            Err(e) => Err(e),
        },
        ParameterType::Float(_) => if is_decimal_literal_exec(&cs) {
            Ok(ArgValue::Float(token.clone()))
        } else {
            Err(ValueError::Invalid)
        },
        ParameterType::User => match parse_user_id(&cs) {
            Some(i) => Ok(ArgValue::User(i)),
            None => Err(ValueError::Invalid),
        },
        ParameterType::Channel => {
            let open = vec!['<', '#'];
            assert(open@ =~= channel_opener());
            match parse_mention(&cs, &open) {
                Some(i) => Ok(ArgValue::Channel(i)),
                None => Err(ValueError::Invalid),
            }
        },
        ParameterType::Role => {
            let open = vec!['<', '@', '&'];
            assert(open@ =~= role_opener());
            match parse_mention(&cs, &open) {
                Some(i) => Ok(ArgValue::Role(i)),
                None => Err(ValueError::Invalid),
            }
        },
    }
}

/// The error for parameter `p` whose input `input` failed with `e`.
pub open spec fn value_failure(p: CommandParameter, input: Seq<char>, e: ValueError) -> ArgumentErrorView {
    match e {
        ValueError::Invalid => ArgumentErrorView::Parse { parameter: p.name@, input },
        ValueError::OutOfBounds => ArgumentErrorView::IntegerOutOfBounds { parameter: p.name@ },
    }
}

/// Values of kind `kind` for every token from `pos` on, or the index of the first token that
/// fails and why.
pub open spec fn rest_values(kind: ParameterType, toks: Seq<Seq<char>>, pos: int) -> Result<
    Seq<ArgValueView>,
    (int, ValueError),
>
    decreases toks.len() - pos,
{
    if pos >= toks.len() || pos < 0 {
        Ok(Seq::empty())
    } else {
        match text_value(kind, toks[pos]) {
            Err(e) => Err((pos, e)),
            Ok(v) => match rest_values(kind, toks, pos + 1) {
                Ok(vs) => Ok(seq![v] + vs),
                Err(x) => Err(x),
            },
        }
    }
}

/// What parameter `p` takes from the tokens at `pos`, and where the next parameter starts.
///
/// A flag is set by a token equal to its name. A variadic parameter takes every remaining
/// token. An optional parameter whose token does not parse, or that finds no token, is absent
/// and consumes nothing; a required one fails.
pub open spec fn prefix_step(p: CommandParameter, toks: Seq<Seq<char>>, pos: int) -> Result<
    (ParsedArgView, int),
    ArgumentErrorView,
> {
    if p.flag {
        if 0 <= pos < toks.len() && toks[pos] == p.name@ {
            Ok((ParsedArgView::Value(ArgValueView::Boolean(true)), pos + 1))
        } else {
            Ok((ParsedArgView::Value(ArgValueView::Boolean(false)), pos))
        }
    } else if p.variadic {
        match rest_values(p.kind, toks, pos) {
            Ok(vs) => Ok((ParsedArgView::List(vs), if pos < toks.len() { toks.len() as int } else { pos })),
            Err((i, e)) => Err(value_failure(p, toks[i], e)),
        }
    } else if pos >= toks.len() {
        if p.optional {
            Ok((ParsedArgView::Absent, pos))
        } else {
            Err(ArgumentErrorView::Parse { parameter: p.name@, input: Seq::empty() })
        }
    } else {
        match text_value(p.kind, toks[pos]) {
            Ok(v) => Ok((ParsedArgView::Value(v), pos + 1)),
            Err(e) => if p.optional {
                Ok((ParsedArgView::Absent, pos))
            } else {
                Err(value_failure(p, toks[pos], e))
            },
        }
    }
}

/// The arguments of parameters `i..` from the tokens at `pos` on; text left after the last
/// parameter is an error.
pub open spec fn prefix_args(ps: Seq<CommandParameter>, toks: Seq<Seq<char>>, i: int, pos: int) -> Result<
    Seq<ParsedArgView>,
    ArgumentErrorView,
>
    decreases ps.len() - i,
{
    if i >= ps.len() || i < 0 {
        if 0 <= pos < toks.len() {
            Err(ArgumentErrorView::TooManyArguments { input: toks[pos] })
        } else {
            Ok(Seq::empty())
        }
    } else {
        match prefix_step(ps[i], toks, pos) {
            Err(e) => Err(e),
            Ok((a, next)) => match prefix_args(ps, toks, i + 1, next) {
                Ok(rest) => Ok(seq![a] + rest),
                Err(e) => Err(e),
            },
        }
    }
}

/// `prefix_args` over `Vec`s of `String`s.
pub open spec fn prefix_arguments(params: Seq<CommandParameter>, tokens: Seq<String>) -> Result<
    Seq<ParsedArgView>,
    ArgumentErrorView,
> {
    prefix_args(params, views_of(tokens), 0, 0)
}

fn value_error(p: &CommandParameter, input: &String, e: ValueError) -> (r: ArgumentError)
    ensures
        r@ == value_failure(*p, input@, e),
{
    match e {
        ValueError::Invalid => ArgumentError::Parse { parameter: p.name.clone(), input: input.clone() },
        ValueError::OutOfBounds => ArgumentError::IntegerOutOfBounds { parameter: p.name.clone() },
    }
}

/// Values of kind `kind` for every token from `pos` on.
fn parse_rest(kind: ParameterType, tokens: &Vec<String>, pos: usize) -> (r: Result<Vec<ArgValue>, (usize, ValueError)>)
    requires
        pos <= tokens@.len(),
    ensures
        match r {
            Ok(vs) => rest_values(kind, views_of(tokens@), pos as int) == Ok::<Seq<ArgValueView>, (int, ValueError)>(arg_views(vs@)),
            Err((i, e)) => rest_values(kind, views_of(tokens@), pos as int) == Err::<Seq<ArgValueView>, (int, ValueError)>((i as int, e)) && i < tokens@.len(),
        },
{
    let ghost toks = views_of(tokens@);
    let mut out: Vec<ArgValue> = Vec::new();
    let mut k: usize = pos;
    while k < tokens.len()
        invariant
            toks == views_of(tokens@),
            pos <= k <= tokens@.len(),
            rest_values(kind, toks, pos as int) == match rest_values(kind, toks, k as int) {
                Ok(vs) => Ok(arg_views(out@) + vs),
                Err(x) => Err::<Seq<ArgValueView>, (int, ValueError)>(x),
            },
        decreases tokens@.len() - k,
    {
        assert(toks[k as int] == tokens@[k as int]@);
        match parse_text_value(kind, &tokens[k]) {
            Err(e) => {
                return Err((k, e));
            },
            Ok(v) => {
                let ghost before = arg_views(out@);
                out.push(v);
                proof {
                    assert(arg_views(out@) =~= before.push(v@));
                    match rest_values(kind, toks, k + 1) {
                        Ok(vs) => {
                            assert(before + (seq![v@] + vs) =~= before.push(v@) + vs);
                        },
                        Err(x) => {},
                    }
                }
            },
        }
        k = k + 1;
    }
    assert(arg_views(out@) + Seq::<ArgValueView>::empty() =~= arg_views(out@));
    Ok(out)
}

/// Coerces prefix-message tokens into the arguments of `params`, in declaration order.
pub fn parse_prefix_args(params: &Vec<CommandParameter>, tokens: &Vec<String>) -> (r: Result<
    Vec<ParsedArg>,
    ArgumentError,
>)
    ensures
        result_view(r) == prefix_arguments(params@, tokens@),
{
    let ghost ps = params@;
    let ghost toks = views_of(tokens@);
    let mut out: Vec<ParsedArg> = Vec::new();
    let mut pos: usize = 0;
    let mut i: usize = 0;
    while i < params.len()
        invariant
            ps == params@,
            toks == views_of(tokens@),
            0 <= i <= ps.len(),
            pos <= tokens@.len(),
            prefix_args(ps, toks, 0, 0) == match prefix_args(ps, toks, i as int, pos as int) {
                Ok(rest) => Ok(parsed_views(out@) + rest),
                Err(e) => Err::<Seq<ParsedArgView>, ArgumentErrorView>(e),
            },
        decreases ps.len() - i,
    {
        let p = &params[i];
        let ghost before = parsed_views(out@);
        let (arg, next): (ParsedArg, usize) = if p.flag {
            if pos < tokens.len() && tokens[pos] == p.name {
                (ParsedArg::Value(ArgValue::Boolean(true)), pos + 1)
            } else {
                (ParsedArg::Value(ArgValue::Boolean(false)), pos)
            }
        } else if p.variadic {
            match parse_rest(p.kind, tokens, pos) {
                Ok(vs) => (ParsedArg::List(vs), tokens.len()),
                Err((k, e)) => {
                    assert(toks[k as int] == tokens@[k as int]@);
                    return Err(value_error(p, &tokens[k], e));
                },
            }
        } else if pos >= tokens.len() {
            if p.optional {
                (ParsedArg::Absent, pos)
            } else {
                return Err(ArgumentError::Parse { parameter: p.name.clone(), input: String::new() });
            }
        } else {
            assert(toks[pos as int] == tokens@[pos as int]@);
            match parse_text_value(p.kind, &tokens[pos]) {
                Ok(v) => (ParsedArg::Value(v), pos + 1),
                Err(e) => {
                    if p.optional {
                        (ParsedArg::Absent, pos)
                    } else {
                        return Err(value_error(p, &tokens[pos], e));
                    }
                },
            }
        };
        assert(prefix_step(ps[i as int], toks, pos as int) == Ok::<(ParsedArgView, int), ArgumentErrorView>((arg@, next as int)));
        out.push(arg);
        proof {
            assert(parsed_views(out@) =~= before.push(arg@));
            match prefix_args(ps, toks, i + 1, next as int) {
                Ok(rest) => {
                    assert(before + (seq![arg@] + rest) =~= before.push(arg@) + rest);
                },
                Err(e) => {},
            }
        }
        pos = next;
        i = i + 1;
    }
    if pos < tokens.len() {
        assert(toks[pos as int] == tokens@[pos as int]@);
        return Err(ArgumentError::TooManyArguments { input: tokens[pos].clone() });
    }
    assert(parsed_views(out@) + Seq::<ParsedArgView>::empty() =~= parsed_views(out@));
    Ok(out)
}

/// An interaction option value, as far as coercion reads it.
///
/// A number keeps its literal text, so that no precision is lost before its range is checked.
#[derive(Clone, Debug)]
pub enum JsonValue {
    Null,
    Bool(bool),
    Number(String),
    String(String),
    Array,
    Object,
}

pub enum JsonValueView {
    Null,
    Bool(bool),
    Number(Seq<char>),
    String(Seq<char>),
    Array,
    Object,
}

impl View for JsonValue {
    type V = JsonValueView;

    open spec fn view(&self) -> JsonValueView {
        match self {
            JsonValue::Null => JsonValueView::Null,
            JsonValue::Bool(b) => JsonValueView::Bool(*b),
            JsonValue::Number(t) => JsonValueView::Number(t@),
            JsonValue::String(t) => JsonValueView::String(t@),
            JsonValue::Array => JsonValueView::Array,
            JsonValue::Object => JsonValueView::Object,
        }
    }
}

/// One named option of an interaction.
#[derive(Clone, Debug)]
pub struct OptionValue {
    pub name: String,
    pub value: Option<JsonValue>,
    /// The option being typed, in an autocomplete request.
    pub focused: bool,
}

/// Why an interaction value did not decode.
#[derive(Clone, Copy, Debug, PartialEq, Eq, Structural)]
pub enum DecodeError {
    Mismatch(ValueShape),
    OutOfBounds,
}

/// The value of kind `kind` that the interaction value `v` holds.
pub open spec fn decoded(kind: ParameterType, v: JsonValueView) -> Result<ArgValueView, DecodeError> {
    match kind {
        ParameterType::Text => match v {
            JsonValueView::String(s) => Ok(ArgValueView::Text(s)),
            _ => Err(DecodeError::Mismatch(ValueShape::String)),
        },
        ParameterType::Boolean => match v {
            JsonValueView::Bool(b) => Ok(ArgValueView::Boolean(b)),
            _ => Err(DecodeError::Mismatch(ValueShape::Boolean)),
        },
        ParameterType::Integer(k) => match v {
            JsonValueView::Number(t) => match integer_of(k, t) {
                Ok(i) => Ok(ArgValueView::Integer(i)),
                Err(ValueError::OutOfBounds) => Err(DecodeError::OutOfBounds),
                Err(ValueError::Invalid) => Err(DecodeError::Mismatch(ValueShape::Integer)),
            },
            _ => Err(DecodeError::Mismatch(ValueShape::Integer)),
        },
        ParameterType::Float(_) => match v {
            JsonValueView::Number(t) => if is_decimal_literal(t) {
                Ok(ArgValueView::Float(t))
            } else {
                Err(DecodeError::Mismatch(ValueShape::Number))
            },
            _ => Err(DecodeError::Mismatch(ValueShape::Number)),
        },
        ParameterType::User => match v {
            JsonValueView::String(s) => match snowflake(s) {
                Some(i) => Ok(ArgValueView::User(i)),
                None => Err(DecodeError::Mismatch(ValueShape::Id)),
            },
            _ => Err(DecodeError::Mismatch(ValueShape::Id)),
        },
        ParameterType::Channel => match v {
            JsonValueView::String(s) => match snowflake(s) {
                Some(i) => Ok(ArgValueView::Channel(i)),
                None => Err(DecodeError::Mismatch(ValueShape::Id)),
            },
            _ => Err(DecodeError::Mismatch(ValueShape::Id)),
        },
        ParameterType::Role => match v {
            JsonValueView::String(s) => match snowflake(s) {
                Some(i) => Ok(ArgValueView::Role(i)),
                None => Err(DecodeError::Mismatch(ValueShape::Id)),
            },
            _ => Err(DecodeError::Mismatch(ValueShape::Id)),
        },
    }
}

/// Decodes an interaction value as a value of kind `kind`.
pub fn decode_value(kind: ParameterType, v: &JsonValue) -> (r: Result<ArgValue, DecodeError>)
    ensures
        match r {
            Ok(a) => decoded(kind, v@) == Ok::<ArgValueView, DecodeError>(a@),
            Err(e) => decoded(kind, v@) == Err::<ArgValueView, DecodeError>(e),
        },
{
    match kind {
        ParameterType::Text => match v {
            JsonValue::String(s) => Ok(ArgValue::Text(s.clone())),
            _ => Err(DecodeError::Mismatch(ValueShape::String)),
        },
        ParameterType::Boolean => match v {
            JsonValue::Bool(b) => Ok(ArgValue::Boolean(*b)),
            _ => Err(DecodeError::Mismatch(ValueShape::Boolean)),
        },
        ParameterType::Integer(k) => match v {
            JsonValue::Number(t) => {
                let cs = chars_of(t.as_str());
                match parse_integer_of(k, &cs) {
                    Ok(i) => Ok(ArgValue::Integer(i)),
                    Err(ValueError::OutOfBounds) => Err(DecodeError::OutOfBounds),
                    Err(ValueError::Invalid) => Err(DecodeError::Mismatch(ValueShape::Integer)),
                }
            },
            _ => Err(DecodeError::Mismatch(ValueShape::Integer)),
        },
        ParameterType::Float(_) => match v {
            JsonValue::Number(t) => {
                let cs = chars_of(t.as_str());
                if is_decimal_literal_exec(&cs) {
                    Ok(ArgValue::Float(t.clone()))
                } else {
                    Err(DecodeError::Mismatch(ValueShape::Number))
                }
            },
            _ => Err(DecodeError::Mismatch(ValueShape::Number)),
        },
        ParameterType::User | ParameterType::Channel | ParameterType::Role => match v {
            JsonValue::String(s) => {
                let cs = chars_of(s.as_str());
                match parse_snowflake(&cs) {
                    Some(i) => Ok(
                        match kind {
                            ParameterType::User => ArgValue::User(i),
                            ParameterType::Channel => ArgValue::Channel(i),
                            _ => ArgValue::Role(i),
                        },
                    ),
                    None => Err(DecodeError::Mismatch(ValueShape::Id)),
                }
            },
            _ => Err(DecodeError::Mismatch(ValueShape::Id)),
        },
    }
}

/// Index of the first option of `opts` from `start` on named `name`, or `opts.len()`.
pub open spec fn option_index(opts: Seq<OptionValue>, name: Seq<char>, start: int) -> int
    decreases opts.len() - start,
{
    if start < 0 || start >= opts.len() {
        opts.len() as int
    } else if opts[start].name@ == name {
        start
    } else {
        option_index(opts, name, start + 1)
    }
}

/// The value given for `name`, if any.
pub open spec fn option_value(opts: Seq<OptionValue>, name: Seq<char>) -> Option<JsonValueView> {
    let j = option_index(opts, name, 0);
    if 0 <= j < opts.len() {
        match opts[j].value {
            Some(v) => Some(v@),
            None => None,
        }
    } else {
        None
    }
}

/// What parameter `p` receives from the interaction options `opts`.
///
/// A missing flag is `false`, a missing optional or variadic parameter is absent, and a missing
/// required one means the client does not follow the schema.
pub open spec fn slash_arg(p: CommandParameter, opts: Seq<OptionValue>) -> Result<ParsedArgView, ArgumentErrorView> {
    match option_value(opts, p.name@) {
        None => if p.flag {
            Ok(ParsedArgView::Value(ArgValueView::Boolean(false)))
        } else if p.spec_is_required() {
            Err(ArgumentErrorView::StructureMismatch { parameter: p.name@, expected: ValueShape::Present })
        } else {
            Ok(ParsedArgView::Absent)
        },
        Some(v) => match decoded(p.kind, v) {
            Ok(a) => Ok(if p.variadic {
                ParsedArgView::List(seq![a])
            } else {
                ParsedArgView::Value(a)
            }),
            Err(DecodeError::Mismatch(shape)) => Err(
                ArgumentErrorView::StructureMismatch { parameter: p.name@, expected: shape },
            ),
            Err(DecodeError::OutOfBounds) => Err(ArgumentErrorView::IntegerOutOfBounds { parameter: p.name@ }),
        },
    }
}

/// The arguments of parameters `i..`, stopping at the first error in declaration order.
pub open spec fn slash_args_from(ps: Seq<CommandParameter>, opts: Seq<OptionValue>, i: int) -> Result<
    Seq<ParsedArgView>,
    ArgumentErrorView,
>
    decreases ps.len() - i,
{
    if i < 0 || i >= ps.len() {
        Ok(Seq::empty())
    } else {
        match slash_arg(ps[i], opts) {
            Err(e) => Err(e),
            Ok(a) => match slash_args_from(ps, opts, i + 1) {
                Ok(rest) => Ok(seq![a] + rest),
                Err(e) => Err(e),
            },
        }
    }
}

/// Index of the option named `name`.
pub fn find_option(opts: &Vec<OptionValue>, name: &String) -> (r: Option<usize>)
    ensures
        match r {
            Some(j) => j == option_index(opts@, name@, 0) && j < opts@.len(),
            None => option_index(opts@, name@, 0) == opts@.len(),
        },
{
    let mut j: usize = 0;
    while j < opts.len()
        invariant
            0 <= j <= opts@.len(),
            option_index(opts@, name@, 0) == option_index(opts@, name@, j as int),
        decreases opts@.len() - j,
    {
        if opts[j].name == *name {
            return Some(j);
        }
        j = j + 1;
    }
    None
}

fn slash_arg_exec(p: &CommandParameter, opts: &Vec<OptionValue>) -> (r: Result<ParsedArg, ArgumentError>)
    ensures
        match r {
            Ok(a) => slash_arg(*p, opts@) == Ok::<ParsedArgView, ArgumentErrorView>(a@),
            Err(e) => slash_arg(*p, opts@) == Err::<ParsedArgView, ArgumentErrorView>(e@),
        },
{
    let found: Option<&JsonValue> = match find_option(opts, &p.name) {
        Some(j) => match &opts[j].value {
            Some(v) => Some(v),
            None => None,
        },
        None => None,
    };
    match found {
        None => {
            if p.flag {
                Ok(ParsedArg::Value(ArgValue::Boolean(false)))
            } else if p.is_required() {
                Err(ArgumentError::StructureMismatch { parameter: p.name.clone(), expected: ValueShape::Present })
            } else {
                Ok(ParsedArg::Absent)
            }
        },
        Some(v) => match decode_value(p.kind, v) {
            Ok(a) => {
                if p.variadic {
                    let mut vs: Vec<ArgValue> = Vec::new();
                    vs.push(a);
                    assert(arg_views(vs@) =~= seq![vs@[0]@]);
                    Ok(ParsedArg::List(vs))
                } else {
                    Ok(ParsedArg::Value(a))
                }
            },
            Err(DecodeError::Mismatch(shape)) => Err(
                ArgumentError::StructureMismatch { parameter: p.name.clone(), expected: shape },
            ),
            Err(DecodeError::OutOfBounds) => Err(ArgumentError::IntegerOutOfBounds { parameter: p.name.clone() }),
        },
    }
}

/// Extracts the arguments of `params`, in declaration order, from interaction options looked
/// up by name.
pub fn extract_slash_args(params: &Vec<CommandParameter>, opts: &Vec<OptionValue>) -> (r: Result<
    Vec<ParsedArg>,
    ArgumentError,
>)
    ensures
        result_view(r) == slash_args_from(params@, opts@, 0),
{
    let ghost ps = params@;
    let mut out: Vec<ParsedArg> = Vec::new();
    let mut i: usize = 0;
    while i < params.len()
        invariant
            ps == params@,
            0 <= i <= ps.len(),
            slash_args_from(ps, opts@, 0) == match slash_args_from(ps, opts@, i as int) {
                Ok(rest) => Ok(parsed_views(out@) + rest),
                Err(e) => Err::<Seq<ParsedArgView>, ArgumentErrorView>(e),
            },
        decreases ps.len() - i,
    {
        let ghost before = parsed_views(out@);
        match slash_arg_exec(&params[i], opts) {
            Err(e) => {
                return Err(e);
            },
            Ok(a) => {
                out.push(a);
                proof {
                    assert(parsed_views(out@) =~= before.push(a@));
                    match slash_args_from(ps, opts@, i + 1) {
                        Ok(rest) => {
                            assert(before + (seq![a@] + rest) =~= before.push(a@) + rest);
                        },
                        Err(e) => {},
                    }
                }
            },
        }
        i = i + 1;
    }
    assert(parsed_views(out@) + Seq::<ParsedArgView>::empty() =~= parsed_views(out@));
    Ok(out)
}

/// Most suggestions an autocomplete response may carry.
pub const MAX_AUTOCOMPLETE_CHOICES: usize = 25;

/// The partial input of an option still being typed, read as kind `kind`; `None` when it
/// cannot be read, which yields no suggestions rather than an error.
///
/// Numbers may arrive as text fragments. Kinds other than numbers are offered as text.
pub open spec fn partial_of(kind: ParameterType, v: JsonValueView) -> Option<ArgValueView> {
    let text = match v {
        JsonValueView::Number(t) => Some(t),
        JsonValueView::String(t) => Some(t),
        _ => None,
    };
    match text {
        None => None,
        Some(t) => match kind {
            ParameterType::Integer(k) => match integer_of(k, t) {
                Ok(i) => Some(ArgValueView::Integer(i)),
                Err(_) => None,
            },
            ParameterType::Float(_) => if is_decimal_literal(t) {
                Some(ArgValueView::Float(t))
            } else {
                None
            },
            _ => match v {
                JsonValueView::String(s) => Some(ArgValueView::Text(s)),
                _ => None,
            },
        },
    }
}

/// Index of the first focused option from `start` on named `name`, or `opts.len()`.
pub open spec fn focused_index(opts: Seq<OptionValue>, name: Seq<char>, start: int) -> int
    decreases opts.len() - start,
{
    if start < 0 || start >= opts.len() {
        opts.len() as int
    } else if opts[start].focused && opts[start].name@ == name {
        start
    } else {
        focused_index(opts, name, start + 1)
    }
}

/// The partial input for parameter `p`, if it has autocomplete and is the focused option.
pub open spec fn partial_for(p: CommandParameter, opts: Seq<OptionValue>) -> Option<ArgValueView> {
    let j = focused_index(opts, p.name@, 0);
    if p.autocomplete && 0 <= j < opts.len() {
        match opts[j].value {
            Some(v) => partial_of(p.kind, v@),
            None => None,
        }
    } else {
        None
    }
}

/// The first parameter from `i` on that has a readable partial input, with that input.
pub open spec fn autocomplete_from(ps: Seq<CommandParameter>, opts: Seq<OptionValue>, i: int) -> Option<
    (int, ArgValueView),
>
    decreases ps.len() - i,
{
    if i < 0 || i >= ps.len() {
        None
    } else {
        match partial_for(ps[i], opts) {
            Some(v) => Some((i, v)),
            None => autocomplete_from(ps, opts, i + 1),
        }
    }
}

fn partial_value(kind: ParameterType, v: &JsonValue) -> (r: Option<ArgValue>)
    ensures
        match r {
            Some(a) => partial_of(kind, v@) == Some(a@),
            None => partial_of(kind, v@) is None,
        },
{
    let text: &String = match v {
        JsonValue::Number(t) => t,
        JsonValue::String(t) => t,
        _ => {
            return None;
        },
    };
    match kind {
        ParameterType::Integer(k) => {
            let cs = chars_of(text.as_str());
            match parse_integer_of(k, &cs) {
                Ok(i) => Some(ArgValue::Integer(i)),
                Err(_) => None,
            }
        },
        ParameterType::Float(_) => {
            let cs = chars_of(text.as_str());
            if is_decimal_literal_exec(&cs) {
                Some(ArgValue::Float(text.clone()))
            } else {
                None
            }
        },
        _ => match v {
            JsonValue::String(s) => Some(ArgValue::Text(s.clone())),
            _ => None,
        },
    }
}

fn find_focused(opts: &Vec<OptionValue>, name: &String) -> (r: Option<usize>)
    ensures
        match r {
            Some(j) => j == focused_index(opts@, name@, 0) && j < opts@.len(),
            None => focused_index(opts@, name@, 0) == opts@.len(),
        },
{
    let mut j: usize = 0;
    while j < opts.len()
        invariant
            0 <= j <= opts@.len(),
            focused_index(opts@, name@, 0) == focused_index(opts@, name@, j as int),
        decreases opts@.len() - j,
    {
        if opts[j].focused && opts[j].name == *name {
            return Some(j);
        }
        j = j + 1;
    }
    None
}

/// For an autocomplete request: the parameter being typed and its partial input, or `None`
/// when there is nothing to suggest for.
pub fn autocomplete_target(params: &Vec<CommandParameter>, opts: &Vec<OptionValue>) -> (r: Option<
    (usize, ArgValue),
>)
    ensures
        match r {
            Some((i, v)) => autocomplete_from(params@, opts@, 0) == Some((i as int, v@)),
            None => autocomplete_from(params@, opts@, 0) is None,
        },
{
    let mut i: usize = 0;
    while i < params.len()
        invariant
            0 <= i <= params@.len(),
            autocomplete_from(params@, opts@, 0) == autocomplete_from(params@, opts@, i as int),
        decreases params@.len() - i,
    {
        let p = &params[i];
        if p.autocomplete {
            match find_focused(opts, &p.name) {
                Some(j) => match &opts[j].value {
                    Some(v) => match partial_value(p.kind, v) {
                        Some(a) => {
                            return Some((i, a));
                        },
                        None => {},
                    },
                    None => {},
                },
                None => {},
            }
        }
        i = i + 1;
    }
    None
}

/// Keeps the first suggestions, up to the most a response may carry.
pub fn limit_choices<C>(choices: Vec<C>) -> (r: Vec<C>)
    ensures
        r@ == if choices@.len() <= MAX_AUTOCOMPLETE_CHOICES {
            choices@
        } else {
            choices@.take(MAX_AUTOCOMPLETE_CHOICES as int)
        },
{
    let mut v = choices;
    if v.len() > MAX_AUTOCOMPLETE_CHOICES {
        v.truncate(MAX_AUTOCOMPLETE_CHOICES);
    }
    v
}

pub open spec fn digit_char(d: int) -> char {
    (d + '0' as int) as char
}

/// The decimal digits of `n`, most significant first, without leading zeros.
pub open spec fn decimal_digits(n: nat) -> Seq<char>
    decreases n,
{
    if n < 10 {
        seq![digit_char(n as int)]
    } else {
        decimal_digits(n / 10).push(digit_char((n % 10) as int))
    }
}

/// The decimal text of `v`.
pub open spec fn decimal_text(v: int) -> Seq<char> {
    if v < 0 {
        seq!['-'] + decimal_digits((-v) as nat)
    } else {
        decimal_digits(v as nat)
    }
}

proof fn lemma_decimal_digits(n: nat)
    ensures
        decimal_digits(n).len() > 0,
        crate::text::all_digits(decimal_digits(n)),
        crate::text::digits_value(decimal_digits(n)) == n,
    decreases n,
{
    if n >= 10 {
        lemma_decimal_digits(n / 10);
        let s = decimal_digits(n / 10);
        let t = s.push(digit_char((n % 10) as int));
        assert(t.drop_last() =~= s);
        assert(crate::text::digit_value(digit_char((n % 10) as int)) == n % 10);
        assert(n == 10 * (n / 10) + n % 10) by (nonlinear_arith);
        assert(decimal_digits(n) == t);
        assert(crate::text::digits_value(t) == 10 * crate::text::digits_value(s)
            + crate::text::digit_value(t.last()));
        assert forall|i: int| 0 <= i < t.len() implies crate::text::is_digit(#[trigger] t[i]) by {
            if i < s.len() {
                assert(t[i] == s[i]);
            }
        }
    } else {
        assert(seq![digit_char(n as int)].drop_last() =~= Seq::<char>::empty());
        assert(crate::text::digit_value(digit_char(n as int)) == n);
        let t = seq![digit_char(n as int)];
        assert(decimal_digits(n) == t);
        assert(crate::text::digits_value(t) == 10 * crate::text::digits_value(t.drop_last())
            + crate::text::digit_value(t.last()));
        assert(crate::text::digits_value(Seq::<char>::empty()) == 0);
    }
}

/// Reading back the text of an integer suggestion gives the integer: `into_json` and
/// `extract_partial` are counterparts for integers.
pub proof fn lemma_integer_text_round_trip(v: i64)
    ensures
        integer_of(IntKind::I64, decimal_text(v as int)) == Ok::<int, ValueError>(v as int),
{
    if v < 0 {
        let d = decimal_digits((-(v as int)) as nat);
        lemma_decimal_digits((-(v as int)) as nat);
        assert((seq!['-'] + d).drop_first() =~= d);
        assert((seq!['-'] + d)[0] == '-');
    } else {
        lemma_decimal_digits(v as nat);
        let d = decimal_digits(v as nat);
        assert(crate::text::is_digit(d[0]));
    }
}

fn push_digits(n: u128, out: &mut String)
    ensures
        final(out)@ == old(out)@ + decimal_digits(n as nat),
    decreases n,
{
    if n >= 10 {
        push_digits(n / 10, out);
    }
    crate::text::push_char(out, digit_to_char(n % 10));
}

fn digit_to_char(d: u128) -> (r: char)
    requires
        d < 10,
    ensures
        r == digit_char(d as int),
{
    if d == 0 {
        '0'
    } else if d == 1 {
        '1'
    } else if d == 2 {
        '2'
    } else if d == 3 {
        '3'
    } else if d == 4 {
        '4'
    } else if d == 5 {
        '5'
    } else if d == 6 {
        '6'
    } else if d == 7 {
        '7'
    } else if d == 8 {
        '8'
    } else {
        '9'
    }
}

/// The interaction value holding the integer `v`.
pub fn integer_json(v: i64) -> (r: JsonValue)
    ensures
        r@ == JsonValueView::Number(decimal_text(v as int)),
{
    let mut text = String::new();
    if v < 0 {
        crate::text::push_char(&mut text, '-');
        let m: u128 = (0i128 - v as i128) as u128;
        push_digits(m, &mut text);
    } else {
        push_digits(v as u128, &mut text);
    }
    JsonValue::Number(text)
}

/// A type whose values can be offered as autocomplete suggestions.
pub trait Autocompletable: Sized {
    /// What the partial input of an option still being typed reads as.
    type Partial;

    /// Reads the partial input of an option still being typed.
    fn extract_partial(value: &JsonValue) -> Result<Self::Partial, DecodeError>;

    /// The suggestion as an interaction value; the counterpart of `extract_partial`.
    fn into_json(self) -> JsonValue;
}

/// The partial input of a text option: the string, or a mismatch.
pub open spec fn string_partial(v: JsonValueView) -> Result<Seq<char>, DecodeError> {
    match v {
        JsonValueView::String(t) => Ok(t),
        _ => Err(DecodeError::Mismatch(ValueShape::String)),
    }
}

/// The partial input of an `i64` option: an integer literal within range, out of bounds, or a
/// mismatch.
pub open spec fn i64_partial(v: JsonValueView) -> Result<int, DecodeError> {
    match v {
        JsonValueView::Number(t) => match integer_of(IntKind::I64, t) {
            Ok(i) => Ok(i),
            Err(ValueError::OutOfBounds) => Err(DecodeError::OutOfBounds),
            Err(ValueError::Invalid) => Err(DecodeError::Mismatch(ValueShape::Integer)),
        },
        _ => Err(DecodeError::Mismatch(ValueShape::Integer)),
    }
}

impl Autocompletable for String {
    type Partial = String;

    fn extract_partial(value: &JsonValue) -> (r: Result<String, DecodeError>)
        ensures
            match r {
                Ok(t) => string_partial(value@) == Ok::<Seq<char>, DecodeError>(t@),
                Err(e) => string_partial(value@) == Err::<Seq<char>, DecodeError>(e),
            },
    {
        match value {
            JsonValue::String(s) => Ok(s.clone()),
            _ => Err(DecodeError::Mismatch(ValueShape::String)),
        }
    }

    fn into_json(self) -> (r: JsonValue)
        ensures
            r@ == JsonValueView::String(self@),
    {
        JsonValue::String(self)
    }
}

impl Autocompletable for i64 {
    type Partial = i64;

    fn extract_partial(value: &JsonValue) -> (r: Result<i64, DecodeError>)
        ensures
            match r {
                Ok(i) => i64_partial(value@) == Ok::<int, DecodeError>(i as int),
                Err(e) => i64_partial(value@) == Err::<int, DecodeError>(e),
            },
    {
        match value {
            JsonValue::Number(t) => {
                let cs = chars_of(t.as_str());
                match parse_integer_of(IntKind::I64, &cs) {
                    Ok(i) => Ok(i as i64),
                    Err(ValueError::OutOfBounds) => Err(DecodeError::OutOfBounds),
                    Err(ValueError::Invalid) => Err(DecodeError::Mismatch(ValueShape::Integer)),
                }
            },
            _ => Err(DecodeError::Mismatch(ValueShape::Integer)),
        }
    }

    fn into_json(self) -> (r: JsonValue)
        ensures
            r@ == JsonValueView::Number(decimal_text(self as int)),
    {
        integer_json(self)
    }
}

/// A suggestion serialized by `into_json` reads back as itself through `extract_partial`, for
/// text and for `i64`.
pub proof fn lemma_suggestion_round_trip(text: Seq<char>, v: i64)
    ensures
        string_partial(JsonValueView::String(text)) == Ok::<Seq<char>, DecodeError>(text),
        i64_partial(JsonValueView::Number(decimal_text(v as int))) == Ok::<int, DecodeError>(v as int),
{
    lemma_integer_text_round_trip(v);
}

} // verus!
