//! The command parser: one line of operator text becomes an
//! [`ActionPacket`].  The first whitespace-separated token is the verb,
//! lower-cased; `move` and `turn` map a direction word and scan `--key value`
//! flags before merging defaults, `leg` takes an id and either an action
//! keyword or up to three coordinates, and the remaining verbs carry no
//! parameters.  An unrecognized verb is the only hard failure besides an
//! empty line.

use vstd::prelude::*;

use crate::floattext::{float_canon, float_token_canon, is_float_syntax};
use crate::number::{parse_int, parse_int_spec};
use crate::text::{
    chars_of,
    is_space_char,
    lower_of,
    lowercase,
    space_char,
    str_eq,
    string_of,
    substring_chars,
};
use crate::value::{
    coerce,
    coerce_spec,
    has_key,
    insert_absent,
    lookup,
    map_insert,
    ActionPacket,
    PacketModel,
    ParamMap,
    SpecParams,
    SpecValue,
    Value,
};

verus! {

/// The index of the first whitespace character in `s`, or `s.len()` if none.
pub open spec fn first_space_idx(s: Seq<char>) -> int
    decreases s.len(),
{
    if s.len() == 0 {
        0
    } else if is_space_char(s[0]) {
        0
    } else {
        1 + first_space_idx(s.drop_first())
    }
}

proof fn lemma_first_space_bounds(s: Seq<char>)
    ensures
        0 <= first_space_idx(s) <= s.len(),
    decreases s.len(),
{
    if s.len() > 0 && !is_space_char(s[0]) {
        lemma_first_space_bounds(s.drop_first());
    }
}

proof fn lemma_first_space_idx_is(s: Seq<char>, k: int)
    requires
        0 <= k <= s.len(),
        forall|j: int| 0 <= j < k ==> !is_space_char(s[j]),
        k < s.len() ==> is_space_char(s[k]),
    ensures
        first_space_idx(s) == k,
    decreases s.len(),
{
    if s.len() == 0 {
    } else if k == 0 {
    } else {
        lemma_first_space_idx_is(s.drop_first(), k - 1);
    }
}

/// The whitespace-separated tokens of a line, in order.
pub open spec fn tokens_of(s: Seq<char>) -> Seq<Seq<char>>
    decreases s.len(),
    via tokens_of_dec
{
    if s.len() == 0 {
        Seq::empty()
    } else if is_space_char(s[0]) {
        tokens_of(s.drop_first())
    } else {
        let w = first_space_idx(s);
        seq![s.subrange(0, w)] + tokens_of(s.subrange(w, s.len() as int))
    }
}

#[via_fn]
proof fn tokens_of_dec(s: Seq<char>) {
    if s.len() > 0 && !is_space_char(s[0]) {
        lemma_first_space_bounds(s);
        lemma_first_space_bounds(s.drop_first());
        assert(first_space_idx(s) >= 1);
    }
}

/// Finds the first whitespace character in `cs[from..to]`.
fn find_space(cs: &[char], from: usize, to: usize) -> (k: usize)
    requires
        from <= to <= cs@.len(),
    ensures
        from <= k <= to,
        forall|j: int| from <= j < k ==> !is_space_char(cs@[j]),
        k < to ==> is_space_char(cs@[k as int]),
{
    let mut j: usize = from;
    while j < to
        invariant
            from <= j <= to,
            to <= cs@.len(),
            forall|q: int| from <= q < j ==> !is_space_char(cs@[q]),
        decreases to - j,
    {
        if space_char(cs[j]) {
            return j;
        }
        j = j + 1;
    }
    j
}

/// Splits a line into its whitespace-separated tokens, exactly as
/// `tokens_of` describes.
pub fn tokenize(line: &str) -> (r: Vec<String>)
    ensures
        r.deep_view() == tokens_of(line@),
{
    let cs = chars_of(line);
    let n = cs.len();
    let mut out: Vec<String> = Vec::new();
    let mut i: usize = 0;
    proof {
        assert(cs@.subrange(0, n as int) =~= cs@);
        assert(out.deep_view() =~~= Seq::<Seq<char>>::empty());
        assert(out.deep_view() + tokens_of(cs@) =~~= tokens_of(cs@));
    }
    while i < n
        invariant
            i <= n == cs@.len(),
            cs@ == line@,
            out.deep_view() + tokens_of(cs@.subrange(i as int, n as int)) == tokens_of(line@),
        decreases n - i,
    {
        let c = cs[i];
        if space_char(c) {
            proof {
                let s = cs@.subrange(i as int, n as int);
                assert(s.drop_first() =~= cs@.subrange(i + 1, n as int));
            }
            i = i + 1;
        } else {
            let j = find_space(cs.as_slice(), i, n);
            let t = substring_chars(cs.as_slice(), i, j);
            let ghost s = cs@.subrange(i as int, n as int);
            proof {
                assert forall|q: int| 0 <= q < j - i implies !is_space_char(s[q]) by {
                    assert(s[q] == cs@[i + q]);
                }
                assert(j < n ==> is_space_char(s[j - i]));
                lemma_first_space_idx_is(s, j - i);
                assert(!is_space_char(s[0]));
                assert(s.subrange(0, j - i) =~= cs@.subrange(i as int, j as int));
                assert(s.subrange(j - i, s.len() as int) =~= cs@.subrange(j as int, n as int));
                assert(tokens_of(s) == seq![cs@.subrange(i as int, j as int)] + tokens_of(
                    cs@.subrange(j as int, n as int),
                ));
            }
            let ghost old_dv = out.deep_view();
            out.push(t);
            proof {
                assert(out.deep_view() =~~= old_dv.push(t@));
                assert(old_dv.push(t@) + tokens_of(cs@.subrange(j as int, n as int)) =~~= old_dv + (
                seq![t@] + tokens_of(cs@.subrange(j as int, n as int))));
            }
            i = j;
        }
    }
    proof {
        assert(cs@.subrange(i as int, n as int) =~= Seq::<char>::empty());
        assert(out.deep_view() + Seq::<Seq<char>>::empty() =~~= out.deep_view());
    }
    out
}

/// The mathematical model of a parse failure.
pub enum SpecParseError {
    Empty,
    UnknownVerb(Seq<char>),
}

/// Why a line failed to parse: it had no tokens, or its verb is not
/// recognized (the rejected verb, lower-cased, is carried for the
/// invalid-action notification).
#[derive(Debug, PartialEq, Eq)]
pub enum ParseError {
    EmptyCommand,
    UnknownVerb(String),
}

impl View for ParseError {
    type V = SpecParseError;

    open spec fn view(&self) -> SpecParseError {
        match self {
            ParseError::EmptyCommand => SpecParseError::Empty,
            ParseError::UnknownVerb(v) => SpecParseError::UnknownVerb(v@),
        }
    }
}

impl ParseError {
    /// The human-readable message carried to the caller.
    pub open spec fn spec_message(&self) -> Seq<char> {
        match self {
            ParseError::EmptyCommand => "empty command"@,
            ParseError::UnknownVerb(_) => "Invalid action."@,
        }
    }

    /// Renders the error as its human-readable message.
    pub fn message(&self) -> (r: String)
        ensures
            r@ == self.spec_message(),
    {
        match self {
            ParseError::EmptyCommand => "empty command".to_owned(),
            ParseError::UnknownVerb(_) => "Invalid action.".to_owned(),
        }
    }
}

/// The short code a direction word maps to: `move` uses `f`/`b`/`L`/`R`,
/// `turn` uses `l`/`r`, and unmapped words pass through unchanged.
pub open spec fn dir_code(is_move: bool, d: Seq<char>) -> Seq<char> {
    let l = lower_of(d);
    if is_move {
        if l == "forward"@ {
            "f"@
        } else if l == "backward"@ {
            "b"@
        } else if l == "left"@ {
            "L"@
        } else if l == "right"@ {
            "R"@
        } else {
            d
        }
    } else {
        if l == "left"@ {
            "l"@
        } else if l == "right"@ {
            "r"@
        } else {
            d
        }
    }
}

fn dir_code_exec(is_move: bool, d: &String) -> (r: String)
    ensures
        r@ == dir_code(is_move, d@),
{
    let l = lowercase(d.as_str());
    if is_move {
        if str_eq(l.as_str(), "forward") {
            "f".to_owned()
        } else if str_eq(l.as_str(), "backward") {
            "b".to_owned()
        } else if str_eq(l.as_str(), "left") {
            "L".to_owned()
        } else if str_eq(l.as_str(), "right") {
            "R".to_owned()
        } else {
            d.clone()
        }
    } else {
        if str_eq(l.as_str(), "left") {
            "l".to_owned()
        } else if str_eq(l.as_str(), "right") {
            "r".to_owned()
        } else {
            d.clone()
        }
    }
}

/// A flag token: it begins with `--`.
pub open spec fn is_flag(t: Seq<char>) -> bool {
    t.len() >= 2 && t[0] == '-' && t[1] == '-'
}

/// The key of a flag token: every leading `--` stripped.
pub open spec fn strip_dd(t: Seq<char>) -> Seq<char>
    decreases t.len(),
{
    if is_flag(t) {
        strip_dd(t.subrange(2, t.len() as int))
    } else {
        t
    }
}

/// Scanning the tokens from position `i` for `--key value` pairs: a flag
/// binds the next token as its coerced value and both are consumed; a flag
/// with no following token is ignored; any other token is skipped.
pub open spec fn apply_flags(m: SpecParams, toks: Seq<Seq<char>>, i: int) -> SpecParams
    decreases toks.len() - i,
{
    if i < 0 || i >= toks.len() {
        m
    } else if is_flag(toks[i]) {
        if i + 1 < toks.len() {
            apply_flags(map_insert(m, strip_dd(toks[i]), coerce_spec(toks[i + 1])), toks, i + 2)
        } else {
            m
        }
    } else {
        apply_flags(m, toks, i + 1)
    }
}

/// Merging the locomotion defaults, for keys absent so far: `mode="crawl"`,
/// `steps=10`, `step_length=80`.
pub open spec fn walk_defaults(m: SpecParams) -> SpecParams {
    insert_absent(
        insert_absent(insert_absent(m, "mode"@, SpecValue::Text("crawl"@)), "steps"@, SpecValue::Int(10)),
        "step_length"@,
        SpecValue::Int(80),
    )
}

/// The parameters of a `move` or `turn` line: the mapped direction (when a
/// second token exists), then the flags, then the defaults.
pub open spec fn walk_params(toks: Seq<Seq<char>>, is_move: bool) -> SpecParams {
    let base: SpecParams = if toks.len() >= 2 {
        map_insert(Seq::empty(), "dir"@, SpecValue::Text(dir_code(is_move, toks[1])))
    } else {
        Seq::empty()
    };
    walk_defaults(apply_flags(base, toks, 2))
}

/// A `leg` action keyword, stored verbatim.
pub open spec fn is_leg_action(t: Seq<char>) -> bool {
    t == "up"@ || t == "dn"@ || t == "mf"@ || t == "bk"@ || t == "mid"@
}

/// The parameters of a `leg` line: an integer id when the second token
/// parses as one, then either a verbatim action keyword or up to three
/// coordinates, each stored only when it has float syntax.
pub open spec fn leg_params(toks: Seq<Seq<char>>) -> SpecParams {
    let m1: SpecParams = if toks.len() >= 2 && parse_int_spec(toks[1]) is Some {
        map_insert(
            Seq::empty(),
            "id"@,
            SpecValue::Int(parse_int_spec(toks[1]).unwrap() as int),
        )
    } else {
        Seq::empty()
    };
    if toks.len() >= 3 {
        let t = toks[2];
        if is_leg_action(t) {
            map_insert(m1, "action"@, SpecValue::Text(t))
        } else {
            let m2: SpecParams = if is_float_syntax(t) {
                map_insert(m1, "x"@, SpecValue::Float(float_canon(t)))
            } else {
                m1
            };
            let m3: SpecParams = if toks.len() >= 4 && is_float_syntax(toks[3]) {
                map_insert(m2, "y"@, SpecValue::Float(float_canon(toks[3])))
            } else {
                m2
            };
            if toks.len() >= 5 && is_float_syntax(toks[4]) {
                map_insert(m3, "z"@, SpecValue::Float(float_canon(toks[4])))
            } else {
                m3
            }
        }
    } else {
        m1
    }
}

/// A verb the parser recognizes, after lower-casing.
pub open spec fn is_known_verb(v: Seq<char>) -> bool {
    v == "move"@ || v == "turn"@ || v == "stop"@ || v == "sit"@ || v == "stand"@ || v == "dance"@
        || v == "wave"@ || v == "leg"@
}

/// A command tag a packet can carry: a recognized verb, or the derived
/// `walk` tag that both locomotion verbs produce.
pub open spec fn is_packet_tag(c: Seq<char>) -> bool {
    c == "walk"@ || c == "stop"@ || c == "sit"@ || c == "stand"@ || c == "dance"@ || c == "wave"@
        || c == "leg"@
}

/// What parsing a line yields: the packet for a recognized verb, the
/// empty-command failure for a blank line, and the unknown-verb failure
/// (carrying the lower-cased verb) otherwise.
pub open spec fn parse_spec(line: Seq<char>) -> Result<PacketModel, SpecParseError> {
    let toks = tokens_of(line);
    if toks.len() == 0 {
        Err(SpecParseError::Empty)
    } else {
        let verb = lower_of(toks[0]);
        if verb == "move"@ {
            Ok(PacketModel { command: "walk"@, params: walk_params(toks, true) })
        } else if verb == "turn"@ {
            Ok(PacketModel { command: "walk"@, params: walk_params(toks, false) })
        } else if verb == "stop"@ {
            Ok(PacketModel { command: "stop"@, params: Seq::empty() })
        } else if verb == "sit"@ || verb == "stand"@ || verb == "dance"@ || verb == "wave"@ {
            Ok(PacketModel { command: verb, params: Seq::empty() })
        } else if verb == "leg"@ {
            Ok(PacketModel { command: "leg"@, params: leg_params(toks) })
        } else {
            Err(SpecParseError::UnknownVerb(verb))
        }
    }
}

/// Parsing is total on recognized verbs and fails on exactly the others: a
/// blank line gives the empty-command failure; a line whose first token
/// lowercases to a recognized verb always parses, to a packet carrying a
/// recognized tag; any other line fails with the unknown-verb failure
/// carrying that lower-cased token, and no packet is constructed.
pub proof fn lemma_parse_total_on_verbs(line: Seq<char>)
    ensures
        parse_spec(line) is Ok ==> is_packet_tag(parse_spec(line)->Ok_0.command),
        tokens_of(line).len() == 0 ==> parse_spec(line) == Err::<PacketModel, SpecParseError>(
            SpecParseError::Empty,
        ),
        tokens_of(line).len() > 0 && is_known_verb(lower_of(tokens_of(line)[0])) ==> parse_spec(
            line,
        ) is Ok,
        tokens_of(line).len() > 0 && !is_known_verb(lower_of(tokens_of(line)[0])) ==> parse_spec(
            line,
        ) == Err::<PacketModel, SpecParseError>(
            SpecParseError::UnknownVerb(lower_of(tokens_of(line)[0])),
        ),
{
}

/// Numeric coercion order: a flag's textual argument becomes an integer
/// when it parses as one, else canonical float text when it has float
/// syntax, else it stays text.
pub proof fn lemma_coercion_order(t: Seq<char>)
    ensures
        parse_int_spec(t) is Some ==> coerce_spec(t) == SpecValue::Int(
            parse_int_spec(t).unwrap() as int,
        ),
        parse_int_spec(t) is None && is_float_syntax(t) ==> coerce_spec(t) == SpecValue::Float(
            float_canon(t),
        ),
        parse_int_spec(t) is None && !is_float_syntax(t) ==> coerce_spec(t) == SpecValue::Text(t),
{
}

/// Default merging is key-absent-only: every key already bound — by the
/// direction word or an explicit flag — keeps its value through the
/// defaults, and each default key is bound to its default exactly when it
/// was absent.
pub proof fn lemma_defaults_absent_only(m: SpecParams)
    ensures
        forall|k: Seq<char>|
            has_key(m, k) ==> has_key(walk_defaults(m), k) && lookup(walk_defaults(m), k)
                == lookup(m, k),
        has_key(walk_defaults(m), "mode"@) && has_key(walk_defaults(m), "steps"@) && has_key(
            walk_defaults(m),
            "step_length"@,
        ),
        !has_key(m, "mode"@) ==> lookup(walk_defaults(m), "mode"@) == SpecValue::Text("crawl"@),
        !has_key(m, "steps"@) ==> lookup(walk_defaults(m), "steps"@) == SpecValue::Int(10),
        !has_key(m, "step_length"@) ==> lookup(walk_defaults(m), "step_length"@)
            == SpecValue::Int(80),
{
    reveal_strlit("mode");
    reveal_strlit("steps");
    reveal_strlit("step_length");
    assert("mode"@.len() == 4 && "steps"@.len() == 5 && "step_length"@.len() == 11);
    assert("mode"@ != "steps"@ && "mode"@ != "step_length"@ && "steps"@ != "step_length"@);
    let m1 = insert_absent(m, "mode"@, SpecValue::Text("crawl"@));
    let m2 = insert_absent(m1, "steps"@, SpecValue::Int(10));
    let m3 = insert_absent(m2, "step_length"@, SpecValue::Int(80));
    assert forall|k: Seq<char>|
        has_key(m, k) implies has_key(m3, k) && lookup(m3, k) == lookup(m, k) by {
        if !has_key(m, "mode"@) {
            crate::value::lemma_lookup_push(m, k, ("mode"@, SpecValue::Text("crawl"@)));
        }
        if !has_key(m1, "steps"@) {
            crate::value::lemma_lookup_push(m1, k, ("steps"@, SpecValue::Int(10)));
        }
        if !has_key(m2, "step_length"@) {
            crate::value::lemma_lookup_push(m2, k, ("step_length"@, SpecValue::Int(80)));
        }
    }
    // the `mode` default: bound when absent, then carried through the rest
    if !has_key(m, "mode"@) {
        crate::value::lemma_lookup_push_new(m, "mode"@, SpecValue::Text("crawl"@));
    }
    if !has_key(m1, "steps"@) {
        crate::value::lemma_has_key_push_other(m1, "mode"@, ("steps"@, SpecValue::Int(10)));
    }
    if !has_key(m2, "step_length"@) {
        crate::value::lemma_has_key_push_other(m2, "mode"@, ("step_length"@, SpecValue::Int(80)));
    }
    // the `steps` default: absence survives the `mode` push, then bound
    if !has_key(m, "steps"@) {
        if !has_key(m, "mode"@) {
            crate::value::lemma_has_key_push_other(
                m,
                "steps"@,
                ("mode"@, SpecValue::Text("crawl"@)),
            );
        }
        crate::value::lemma_lookup_push_new(m1, "steps"@, SpecValue::Int(10));
        if !has_key(m2, "step_length"@) {
            crate::value::lemma_has_key_push_other(
                m2,
                "steps"@,
                ("step_length"@, SpecValue::Int(80)),
            );
        }
    } else {
        if !has_key(m, "mode"@) {
            crate::value::lemma_has_key_push_other(
                m,
                "steps"@,
                ("mode"@, SpecValue::Text("crawl"@)),
            );
        }
        if !has_key(m2, "step_length"@) {
            crate::value::lemma_has_key_push_other(
                m2,
                "steps"@,
                ("step_length"@, SpecValue::Int(80)),
            );
        }
    }
    // the `step_length` default: absence survives the first two pushes
    if !has_key(m, "step_length"@) {
        if !has_key(m, "mode"@) {
            crate::value::lemma_has_key_push_other(
                m,
                "step_length"@,
                ("mode"@, SpecValue::Text("crawl"@)),
            );
        }
        if !has_key(m1, "steps"@) {
            crate::value::lemma_has_key_push_other(
                m1,
                "step_length"@,
                ("steps"@, SpecValue::Int(10)),
            );
        }
        crate::value::lemma_lookup_push_new(m2, "step_length"@, SpecValue::Int(80));
    }
}

/// Direction mapping is verb-specific: `move` maps the four direction words
/// to `f`, `b`, `L`, `R`; `turn` maps only `left` and `right`, to lowercase
/// `l` and `r`; every other word passes through unchanged.
pub proof fn lemma_direction_verb_specific(d: Seq<char>)
    ensures
        lower_of(d) == "left"@ ==> dir_code(true, d) == "L"@ && dir_code(false, d) == "l"@,
        lower_of(d) == "right"@ ==> dir_code(true, d) == "R"@ && dir_code(false, d) == "r"@,
        lower_of(d) == "forward"@ ==> dir_code(true, d) == "f"@ && dir_code(false, d) == d,
        lower_of(d) == "backward"@ ==> dir_code(true, d) == "b"@ && dir_code(false, d) == d,
        !(lower_of(d) == "left"@ || lower_of(d) == "right"@ || lower_of(d) == "forward"@
            || lower_of(d) == "backward"@) ==> dir_code(true, d) == d && dir_code(false, d) == d,
{
    reveal_strlit("left");
    reveal_strlit("right");
    reveal_strlit("forward");
    reveal_strlit("backward");
    assert("left"@.len() == 4 && "right"@.len() == 5 && "forward"@.len() == 7 && "backward"@.len()
        == 8);
}

/// Whether a token begins with `--`.
fn is_flag_exec(t: &String) -> (r: bool)
    ensures
        r == is_flag(t@),
{
    let cs = chars_of(t.as_str());
    cs.len() >= 2 && cs[0] == '-' && cs[1] == '-'
}

/// The key of a flag token: every leading `--` stripped.
fn strip_dd_exec(t: &String) -> (r: String)
    ensures
        r@ == strip_dd(t@),
{
    let cs = chars_of(t.as_str());
    let n = cs.len();
    let mut p: usize = 0;
    proof {
        assert(cs@.subrange(0, n as int) =~= cs@);
    }
    while p < n && p + 1 < n && cs[p] == '-' && cs[p + 1] == '-'
        invariant
            p <= n == cs@.len(),
            cs@ == t@,
            strip_dd(t@) == strip_dd(cs@.subrange(p as int, n as int)),
        decreases n - p,
    {
        proof {
            let s = cs@.subrange(p as int, n as int);
            assert(s[0] == cs@[p as int] && s[1] == cs@[p + 1]);
            assert(is_flag(s));
            assert(s.subrange(2, s.len() as int) =~= cs@.subrange(p + 2, n as int));
        }
        p = p + 2;
    }
    proof {
        let s = cs@.subrange(p as int, n as int);
        if s.len() >= 2 {
            assert(s[0] == cs@[p as int] && s[1] == cs@[p + 1]);
        }
        assert(!is_flag(s));
    }
    substring_chars(cs.as_slice(), p, n)
}

/// Builds the packet of a `move` or `turn` line.
fn walk_packet(toks: &Vec<String>, is_move: bool) -> (p: ActionPacket)
    ensures
        p@.command == "walk"@,
        p@.params == walk_params(toks.deep_view(), is_move),
        p.wf(),
{
    let ghost tv = toks.deep_view();
    let mut params = ParamMap::new();
    if toks.len() >= 2 {
        let code = dir_code_exec(is_move, &toks[1]);
        proof {
            assert(tv[1] == toks@[1]@);
        }
        params.insert("dir".to_owned(), Value::Text(code));
    }
    let ghost base = params@;
    let mut i: usize = 2;
    while i < toks.len()
        invariant
            2 <= i,
            tv == toks.deep_view(),
            tv.len() == toks@.len(),
            params.wf(),
            apply_flags(params@, tv, i as int) == apply_flags(base, tv, 2),
        decreases toks@.len() - i,
    {
        proof {
            assert(tv[i as int] == toks@[i as int]@);
        }
        if is_flag_exec(&toks[i]) {
            if i + 1 < toks.len() {
                proof {
                    assert(tv[i + 1] == toks@[i + 1]@);
                }
                let key = strip_dd_exec(&toks[i]);
                let val = coerce(toks[i + 1].as_str());
                params.insert(key, val);
                i = i + 2;
            } else {
                i = i + 1;
            }
        } else {
            i = i + 1;
        }
    }
    proof {
        assert(apply_flags(params@, tv, i as int) == params@);
    }
    params.insert_default("mode".to_owned(), Value::Text("crawl".to_owned()));
    params.insert_default("steps".to_owned(), Value::Int(10));
    params.insert_default("step_length".to_owned(), Value::Int(80));
    ActionPacket { command: "walk".to_owned(), params }
}

/// Builds the packet of a `leg` line.
fn leg_packet(toks: &Vec<String>) -> (p: ActionPacket)
    ensures
        p@.command == "leg"@,
        p@.params == leg_params(toks.deep_view()),
        p.wf(),
{
    let ghost tv = toks.deep_view();
    let mut params = ParamMap::new();
    if toks.len() >= 2 {
        proof {
            assert(tv[1] == toks@[1]@);
        }
        let idc = chars_of(toks[1].as_str());
        match parse_int(idc.as_slice()) {
            Some(id) => {
                params.insert("id".to_owned(), Value::Int(id));
            },
            None => {},
        }
    }
    if toks.len() >= 3 {
        proof {
            assert(tv[2] == toks@[2]@);
        }
        let t = &toks[2];
        if str_eq(t.as_str(), "up") || str_eq(t.as_str(), "dn") || str_eq(t.as_str(), "mf")
            || str_eq(t.as_str(), "bk") || str_eq(t.as_str(), "mid") {
            params.insert("action".to_owned(), Value::Text(t.clone()));
        } else {
            let xc = chars_of(t.as_str());
            match float_token_canon(xc.as_slice()) {
                Some(c) => {
                    params.insert("x".to_owned(), Value::Float(string_of(&c)));
                },
                None => {},
            }
            if toks.len() >= 4 {
                proof {
                    assert(tv[3] == toks@[3]@);
                }
                let yc = chars_of(toks[3].as_str());
                match float_token_canon(yc.as_slice()) {
                    Some(c) => {
                        params.insert("y".to_owned(), Value::Float(string_of(&c)));
                    },
                    None => {},
                }
            }
            if toks.len() >= 5 {
                proof {
                    assert(tv[4] == toks@[4]@);
                }
                let zc = chars_of(toks[4].as_str());
                match float_token_canon(zc.as_slice()) {
                    Some(c) => {
                        params.insert("z".to_owned(), Value::Float(string_of(&c)));
                    },
                    None => {},
                }
            }
        }
    }
    ActionPacket { command: "leg".to_owned(), params }
}

/// Parses one line of command text, exactly as `parse_spec` describes.  A
/// returned packet is well formed: its keys are unique and its command is
/// the recognized tag the grammar assigns.
pub fn parse(line: &str) -> (r: Result<ActionPacket, ParseError>)
    ensures
        r is Ok <==> parse_spec(line@) is Ok,
        r is Ok ==> r->Ok_0@ == parse_spec(line@)->Ok_0 && r->Ok_0.wf(),
        r is Err ==> r->Err_0@ == parse_spec(line@)->Err_0,
{
    let toks = tokenize(line);
    let ghost tv = tokens_of(line@);
    if toks.len() == 0 {
        return Err(ParseError::EmptyCommand);
    }
    proof {
        assert(tv[0] == toks@[0]@);
    }
    let verb = lowercase(toks[0].as_str());
    if str_eq(verb.as_str(), "move") {
        Ok(walk_packet(&toks, true))
    } else if str_eq(verb.as_str(), "turn") {
        Ok(walk_packet(&toks, false))
    } else if str_eq(verb.as_str(), "stop") {
        Ok(ActionPacket { command: "stop".to_owned(), params: ParamMap::new() })
    } else if str_eq(verb.as_str(), "sit") || str_eq(verb.as_str(), "stand") || str_eq(
        verb.as_str(),
        "dance",
    ) || str_eq(verb.as_str(), "wave") {
        Ok(ActionPacket { command: verb, params: ParamMap::new() })
    } else if str_eq(verb.as_str(), "leg") {
        Ok(leg_packet(&toks))
    } else {
        Err(ParseError::UnknownVerb(verb))
    }
}

} // verus!
