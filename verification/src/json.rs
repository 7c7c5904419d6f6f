//! A deterministic JSON rendering of the hover payload: fixed field
//! order, fixed escaping, no whitespace, so identical payloads always
//! serialize to identical bytes.

use vstd::prelude::*;

verus! {

use crate::hover::ContextView;
use crate::hover::HeaderView;
use crate::hover::HoverModel;
use crate::hover::HoverPlusResponse;
use crate::hover::HoverPosition;
use crate::hover::HoverRange;
use crate::hover::LimitsView;
use crate::hover::ModelView;
use crate::hover::PrimaryView;
use crate::hover::ScopeView;
use crate::hover::SymbolView;
use crate::resolve::RelView;
use crate::resolve::exec_join_from;
use crate::resolve::join_from;
use crate::text::spec_i64_dec;
use crate::text::spec_u64_dec;
use vstd::string::StrSliceExecFns;
use vstd::string::StringExecFns;

/// The lower-case hexadecimal digit of `d` (expected in 0..16).
pub open spec fn spec_hex_digit(d: int) -> char {
    if d < 10 {
        crate::text::spec_dec_digit(d)
    } else if d == 10 {
        'a'
    } else if d == 11 {
        'b'
    } else if d == 12 {
        'c'
    } else if d == 13 {
        'd'
    } else if d == 14 {
        'e'
    } else {
        'f'
    }
}

/// The JSON escape of one character: the two-character escapes for the
/// quote, backslash and common control characters, a `\\u00..` escape for
/// the other control characters, and the character itself otherwise.
pub open spec fn esc_char(c: char) -> Seq<char> {
    if c == '"' {
        "\\\""@
    } else if c == '\\' {
        "\\\\"@
    } else if c == '\n' {
        "\\n"@
    } else if c == '\r' {
        "\\r"@
    } else if c == '\t' {
        "\\t"@
    } else if (c as u32) == 8 {
        "\\b"@
    } else if (c as u32) == 12 {
        "\\f"@
    } else if (c as u32) < 32 {
        "\\u00"@ + seq![
            spec_hex_digit((c as u32) as int / 16),
            spec_hex_digit((c as u32) as int % 16),
        ]
    } else {
        seq![c]
    }
}

/// The escaped text from character `i` on.
pub open spec fn json_escape_from(s: Seq<char>, i: int) -> Seq<char>
    decreases s.len() - i,
{
    if i < 0 || i >= s.len() {
        Seq::empty()
    } else {
        esc_char(s[i]) + json_escape_from(s, i + 1)
    }
}

/// A JSON string: the escaped text in double quotes.
pub open spec fn jstr(s: Seq<char>) -> Seq<char> {
    "\""@ + json_escape_from(s, 0) + "\""@
}

/// An optional JSON string: `null` when absent.
pub open spec fn jopt(s: Option<Seq<char>>) -> Seq<char> {
    match s {
        Some(v) => jstr(v),
        None => "null"@,
    }
}

/// A JSON array of strings.
pub open spec fn json_strings(ss: Seq<Seq<char>>) -> Seq<char> {
    "["@ + join_from(Seq::new(ss.len(), |i: int| jstr(ss[i])), ","@, 0) + "]"@
}

/// A JSON array of key-value pairs, each a two-element array.
pub open spec fn json_facts(fs: Seq<(Seq<char>, Seq<char>)>) -> Seq<char> {
    "["@ + join_from(
        Seq::new(fs.len(), |i: int| "["@ + jstr(fs[i].0) + ","@ + jstr(fs[i].1) + "]"@),
        ","@,
        0,
    ) + "]"@
}

/// One related symbol as JSON.
pub open spec fn json_of_related(r: RelView) -> Seq<char> {
    "{\"qualified_name\":"@ + jstr(r.qualified_name) + ",\"kind\":"@ + jstr(r.kind)
        + ",\"relevance_score\":"@ + spec_i64_dec(r.relevance_score as int) + "}"@
}

/// The related list as JSON.
pub open spec fn json_related_list(rs: Seq<RelView>) -> Seq<char> {
    "["@ + join_from(Seq::new(rs.len(), |i: int| json_of_related(rs[i])), ","@, 0) + "]"@
}

/// A position as JSON.
pub open spec fn json_of_position(p: HoverPosition) -> Seq<char> {
    "{\"line\":"@ + spec_u64_dec(p.line as int) + ",\"character\":"@ + spec_u64_dec(
        p.character as int,
    ) + "}"@
}

/// A range as JSON.
pub open spec fn json_of_range(r: HoverRange) -> Seq<char> {
    "{\"start\":"@ + json_of_position(r.start) + ",\"end\":"@ + json_of_position(r.end) + "}"@
}

/// The symbol identity as JSON.
pub open spec fn json_of_symbol(s: SymbolView) -> Seq<char> {
    "{\"name\":"@ + jstr(s.name) + ",\"kind\":"@ + jstr(s.kind) + ",\"qualified_name\":"@ + jstr(
        s.qualified_name,
    ) + ",\"uri\":"@ + jstr(s.uri) + ",\"range\":"@ + json_of_range(s.range) + ",\"resolve_id\":"@
        + jstr(s.resolve_id) + ",\"resolution_confidence\":"@ + jstr(s.resolution_confidence)
        + "}"@
}

/// The scope summary as JSON.
pub open spec fn json_of_scope(s: ScopeView) -> Seq<char> {
    "{\"module\":"@ + jopt(s.module) + ",\"enclosing_rule\":"@ + jopt(s.enclosing_rule)
        + ",\"namespaces_in_scope\":"@ + json_strings(s.namespaces_in_scope) + "}"@
}

/// The request context as JSON.
pub open spec fn json_of_context(c: ContextView) -> Seq<char> {
    "{\"document_version\":"@ + spec_i64_dec(c.document_version as int) + ",\"position\":"@
        + json_of_position(c.position) + ",\"scope_summary\":"@ + json_of_scope(c.scope_summary)
        + ",\"config_hash\":"@ + jstr(c.config_hash) + "}"@
}

/// The display header as JSON.
pub open spec fn json_of_header(h: HeaderView) -> Seq<char> {
    "{\"display_name\":"@ + jstr(h.display_name) + ",\"kind_label\":"@ + jstr(h.kind_label)
        + ",\"qualified_path\":"@ + jstr(h.qualified_path) + "}"@
}

/// The primary content as JSON.
pub open spec fn json_of_primary(p: PrimaryView) -> Seq<char> {
    "{\"header\":"@ + json_of_header(p.header) + ",\"signature_or_shape\":"@ + jstr(
        p.signature_or_shape,
    ) + ",\"summary\":"@ + jstr(p.summary) + ",\"badges\":"@ + json_strings(p.badges)
        + ",\"facts\":"@ + json_facts(p.facts) + "}"@
}

/// The limits as JSON.
pub open spec fn json_of_limits(l: LimitsView) -> Seq<char> {
    "{\"max_markdown_bytes\":"@ + spec_u64_dec(l.max_markdown_bytes as int)
        + ",\"max_json_bytes\":"@ + spec_u64_dec(l.max_json_bytes as int)
        + ",\"truncated_sections\":"@ + json_strings(l.truncated_sections) + "}"@
}

/// The whole hover payload as JSON, fields in schema order.
#[verifier::opaque]
pub open spec fn json_of_model(m: ModelView) -> Seq<char> {
    "{\"schema_version\":"@ + jstr(m.schema_version) + ",\"id\":"@ + jstr(m.id) + ",\"symbol\":"@
        + json_of_symbol(m.symbol) + ",\"context\":"@ + json_of_context(m.context)
        + ",\"primary\":"@ + json_of_primary(m.primary) + ",\"related\":"@ + json_related_list(
        m.related,
    ) + ",\"limits\":"@ + json_of_limits(m.limits) + "}"@
}

/// The byte length of a payload's JSON rendering, as a length fits in
/// memory.
pub open spec fn json_byte_len(m: ModelView) -> usize {
    vstd::utf8::encode_utf8(json_of_model(m)).len() as usize
}

fn hex_digit_str(d: u32) -> (r: &'static str)
    requires
        d < 16,
    ensures
        r@ == seq![spec_hex_digit(d as int)],
{
    let r: &'static str = if d < 10 {
        crate::text::digit_name(d as u64)
    } else if d == 10 {
        "a"
    } else if d == 11 {
        "b"
    } else if d == 12 {
        "c"
    } else if d == 13 {
        "d"
    } else if d == 14 {
        "e"
    } else {
        "f"
    };
    proof {
        reveal_strlit("a");
        reveal_strlit("b");
        reveal_strlit("c");
        reveal_strlit("d");
        reveal_strlit("e");
        reveal_strlit("f");
        assert(r@ =~= seq![spec_hex_digit(d as int)]);
    }
    r
}

/// Escapes text for a JSON string body.
fn json_escape_exec(s: &str) -> (r: String)
    ensures
        r@ == json_escape_from(s@, 0),
{
    let n = s.unicode_len();
    let mut out = String::new();
    let mut i: usize = 0;
    while i < n
        invariant
            i <= n,
            n == s@.len(),
            out@ + json_escape_from(s@, i as int) =~= json_escape_from(s@, 0),
        decreases n - i,
    {
        let c = s.get_char(i);
        let ghost pre = out@;
        let v = c as u32;
        if c == '"' {
            out.append("\\\"");
        } else if c == '\\' {
            out.append("\\\\");
        } else if c == '\n' {
            out.append("\\n");
        } else if c == '\r' {
            out.append("\\r");
        } else if c == '\t' {
            out.append("\\t");
        } else if v == 8 {
            out.append("\\b");
        } else if v == 12 {
            out.append("\\f");
        } else if v < 32 {
            out.append("\\u00");
            out.append(hex_digit_str(v / 16));
            out.append(hex_digit_str(v % 16));
        } else {
            let piece = s.substring_char(i, i + 1);
            out.append(piece);
            proof {
                assert(piece@ =~= seq![s@[i as int]]);
            }
        }
        proof {
            assert(out@ =~= pre + esc_char(s@[i as int]));
            assert(out@ + json_escape_from(s@, i + 1) =~= json_escape_from(s@, 0));
        }
        i += 1;
    }
    proof {
        assert(json_escape_from(s@, n as int) =~= Seq::<char>::empty());
        assert(out@ =~= json_escape_from(s@, 0));
    }
    out
}

/// Renders a JSON string.
fn exec_jstr(s: &str) -> (r: String)
    ensures
        r@ == jstr(s@),
{
    let mut out = String::from_str("\"");
    let body = json_escape_exec(s);
    out.append(body.as_str());
    out.append("\"");
    proof {
        assert(out@ =~= jstr(s@));
    }
    out
}

/// Renders a JSON array of strings.
fn exec_json_strings(v: &Vec<String>) -> (r: String)
    ensures
        r@ == json_strings(v.deep_view()),
{
    let ghost target = Seq::new(v.deep_view().len(), |i: int| jstr(v.deep_view()[i]));
    let mut elems: Vec<String> = Vec::new();
    let mut i: usize = 0;
    while i < v.len()
        invariant
            i <= v@.len(),
            elems.deep_view() =~= target.take(i as int),
            target == Seq::new(v.deep_view().len(), |k: int| jstr(v.deep_view()[k])),
        decreases v@.len() - i,
    {
        let ghost pre = elems.deep_view();
        elems.push(exec_jstr(v[i].as_str()));
        proof {
            assert(elems.deep_view() =~= pre.push(elems@.last()@));
            assert(elems.deep_view() =~= target.take(i + 1));
        }
        i += 1;
    }
    proof {
        assert(elems.deep_view() =~= target);
    }
    let mut out = String::from_str("[");
    let body = exec_join_from(&elems, ",", 0);
    out.append(body.as_str());
    out.append("]");
    proof {
        assert(out@ =~= json_strings(v.deep_view()));
    }
    out
}

/// Renders the facts as a JSON array of two-element arrays.
fn exec_json_facts(v: &Vec<(String, String)>) -> (r: String)
    ensures
        r@ == json_facts(v.deep_view()),
{
    let ghost fs = v.deep_view();
    let ghost target = Seq::new(
        fs.len(),
        |i: int| "["@ + jstr(fs[i].0) + ","@ + jstr(fs[i].1) + "]"@,
    );
    let mut elems: Vec<String> = Vec::new();
    let mut i: usize = 0;
    while i < v.len()
        invariant
            i <= v@.len(),
            fs == v.deep_view(),
            elems.deep_view() =~= target.take(i as int),
            target == Seq::new(fs.len(), |k: int| "["@ + jstr(fs[k].0) + ","@ + jstr(fs[k].1) + "]"@),
        decreases v@.len() - i,
    {
        let ghost pre = elems.deep_view();
        let mut e = String::from_str("[");
        let k = exec_jstr(v[i].0.as_str());
        e.append(k.as_str());
        e.append(",");
        let val = exec_jstr(v[i].1.as_str());
        e.append(val.as_str());
        e.append("]");
        elems.push(e);
        proof {
            assert(elems.deep_view() =~= pre.push(elems@.last()@));
            assert(elems@.last()@ =~= target[i as int]);
            assert(elems.deep_view() =~= target.take(i + 1));
        }
        i += 1;
    }
    proof {
        assert(elems.deep_view() =~= target);
    }
    let mut out = String::from_str("[");
    let body = exec_join_from(&elems, ",", 0);
    out.append(body.as_str());
    out.append("]");
    proof {
        assert(out@ =~= json_facts(v.deep_view()));
    }
    out
}

/// Renders the related list as JSON.
fn exec_json_related(v: &Vec<crate::resolve::HoverRelated>) -> (r: String)
    ensures
        r@ == json_related_list(v.deep_view()),
{
    let ghost rs = v.deep_view();
    let ghost target = Seq::new(rs.len(), |i: int| json_of_related(rs[i]));
    let mut elems: Vec<String> = Vec::new();
    let mut i: usize = 0;
    while i < v.len()
        invariant
            i <= v@.len(),
            rs == v.deep_view(),
            elems.deep_view() =~= target.take(i as int),
            target == Seq::new(rs.len(), |k: int| json_of_related(rs[k])),
        decreases v@.len() - i,
    {
        let ghost pre = elems.deep_view();
        let mut e = String::from_str("{\"qualified_name\":");
        let q = exec_jstr(v[i].qualified_name.as_str());
        e.append(q.as_str());
        e.append(",\"kind\":");
        let k = exec_jstr(v[i].kind.as_str());
        e.append(k.as_str());
        e.append(",\"relevance_score\":");
        let sc = crate::text::i32_to_dec(v[i].relevance_score);
        e.append(sc.as_str());
        e.append("}");
        elems.push(e);
        proof {
            assert(elems.deep_view() =~= pre.push(elems@.last()@));
            assert(elems@.last()@ =~= target[i as int]);
            assert(elems.deep_view() =~= target.take(i + 1));
        }
        i += 1;
    }
    proof {
        assert(elems.deep_view() =~= target);
    }
    let mut out = String::from_str("[");
    let body = exec_join_from(&elems, ",", 0);
    out.append(body.as_str());
    out.append("]");
    proof {
        assert(out@ =~= json_related_list(v.deep_view()));
    }
    out
}

fn exec_json_position(p: HoverPosition) -> (r: String)
    ensures
        r@ == json_of_position(p),
{
    let mut out = String::from_str("{\"line\":");
    out.append(crate::text::u32_to_dec(p.line).as_str());
    out.append(",\"character\":");
    out.append(crate::text::u32_to_dec(p.character).as_str());
    out.append("}");
    proof {
        assert(out@ =~= json_of_position(p));
    }
    out
}

fn exec_jopt(s: &Option<String>) -> (r: String)
    ensures
        match s {
            Some(v) => r@ == jstr(v@),
            None => r@ == "null"@,
        },
{
    match s {
        Some(v) => exec_jstr(v.as_str()),
        None => String::from_str("null"),
    }
}

fn exec_json_range(r: HoverRange) -> (out: String)
    ensures
        out@ == json_of_range(r),
{
    let mut out = String::from_str("{\"start\":");
    out.append(exec_json_position(r.start).as_str());
    out.append(",\"end\":");
    out.append(exec_json_position(r.end).as_str());
    out.append("}");
    proof {
        assert(out@ =~= json_of_range(r));
    }
    out
}

fn exec_json_symbol(s: &crate::hover::HoverSymbol) -> (out: String)
    ensures
        out@ == json_of_symbol(s@),
{
    let mut out = String::from_str("{\"name\":");
    out.append(exec_jstr(s.name.as_str()).as_str());
    out.append(",\"kind\":");
    out.append(exec_jstr(s.kind.as_str()).as_str());
    out.append(",\"qualified_name\":");
    out.append(exec_jstr(s.qualified_name.as_str()).as_str());
    out.append(",\"uri\":");
    out.append(exec_jstr(s.uri.as_str()).as_str());
    out.append(",\"range\":");
    out.append(exec_json_range(s.range).as_str());
    out.append(",\"resolve_id\":");
    out.append(exec_jstr(s.resolve_id.as_str()).as_str());
    out.append(",\"resolution_confidence\":");
    out.append(exec_jstr(s.resolution_confidence.as_str()).as_str());
    out.append("}");
    proof {
        assert(out@ =~= json_of_symbol(s@));
    }
    out
}

fn exec_json_context(c: &crate::hover::HoverContext) -> (out: String)
    ensures
        out@ == json_of_context(c@),
{
    let mut out = String::from_str("{\"document_version\":");
    out.append(crate::text::i32_to_dec(c.document_version).as_str());
    out.append(",\"position\":");
    out.append(exec_json_position(c.position).as_str());
    out.append(",\"scope_summary\":");
    out.append("{\"module\":");
    out.append(exec_jopt(&c.scope_summary.module).as_str());
    out.append(",\"enclosing_rule\":");
    out.append(exec_jopt(&c.scope_summary.enclosing_rule).as_str());
    out.append(",\"namespaces_in_scope\":");
    out.append(exec_json_strings(&c.scope_summary.namespaces_in_scope).as_str());
    out.append("}");
    out.append(",\"config_hash\":");
    out.append(exec_jstr(c.config_hash.as_str()).as_str());
    out.append("}");
    proof {
        assert(out@ =~= json_of_context(c@));
    }
    out
}

fn exec_json_primary(p: &crate::hover::HoverPrimary) -> (out: String)
    ensures
        out@ == json_of_primary(p@),
{
    let mut out = String::from_str("{\"header\":");
    out.append("{\"display_name\":");
    out.append(exec_jstr(p.header.display_name.as_str()).as_str());
    out.append(",\"kind_label\":");
    out.append(exec_jstr(p.header.kind_label.as_str()).as_str());
    out.append(",\"qualified_path\":");
    out.append(exec_jstr(p.header.qualified_path.as_str()).as_str());
    out.append("}");
    out.append(",\"signature_or_shape\":");
    out.append(exec_jstr(p.signature_or_shape.as_str()).as_str());
    out.append(",\"summary\":");
    out.append(exec_jstr(p.summary.as_str()).as_str());
    out.append(",\"badges\":");
    out.append(exec_json_strings(&p.badges).as_str());
    out.append(",\"facts\":");
    out.append(exec_json_facts(&p.facts).as_str());
    out.append("}");
    proof {
        assert(out@ =~= json_of_primary(p@));
    }
    out
}

fn exec_json_limits(l: &crate::hover::HoverLimits) -> (out: String)
    ensures
        out@ == json_of_limits(l@),
{
    let mut out = String::from_str("{\"max_markdown_bytes\":");
    out.append(crate::text::usize_to_dec(l.max_markdown_bytes).as_str());
    out.append(",\"max_json_bytes\":");
    out.append(crate::text::usize_to_dec(l.max_json_bytes).as_str());
    out.append(",\"truncated_sections\":");
    out.append(exec_json_strings(&l.truncated_sections).as_str());
    out.append("}");
    proof {
        assert(out@ =~= json_of_limits(l@));
    }
    out
}

/// Renders the hover payload as deterministic JSON: fixed field order,
/// fixed escaping, no whitespace.
pub fn hover_model_to_json(m: &HoverModel) -> (r: String)
    ensures
        r@ == json_of_model(m@),
{
    let mut out = String::from_str("{\"schema_version\":");
    out.append(exec_jstr(m.schema_version.as_str()).as_str());
    out.append(",\"id\":");
    out.append(exec_jstr(m.id.as_str()).as_str());
    out.append(",\"symbol\":");
    out.append(exec_json_symbol(&m.symbol).as_str());
    out.append(",\"context\":");
    out.append(exec_json_context(&m.context).as_str());
    out.append(",\"primary\":");
    out.append(exec_json_primary(&m.primary).as_str());
    out.append(",\"related\":");
    out.append(exec_json_related(&m.related).as_str());
    out.append(",\"limits\":");
    out.append(exec_json_limits(&m.limits).as_str());
    out.append("}");
    proof {
        reveal(json_of_model);
        assert(out@ =~= json_of_model(m@));
    }
    out
}

/// A response as JSON: the payload, and the rendering only when present.
pub open spec fn json_of_response(m: ModelView, markdown: Option<Seq<char>>) -> Seq<char> {
    match markdown {
        Some(md) => "{\"model\":"@ + json_of_model(m) + ",\"markdown\":"@ + jstr(md) + "}"@,
        None => "{\"model\":"@ + json_of_model(m) + "}"@,
    }
}

/// Renders a hover response as deterministic JSON.
pub fn response_to_json(r: &HoverPlusResponse) -> (out: String)
    ensures
        out@ == json_of_response(
            r.model@,
            match r.markdown {
                Some(ref md) => Some(md@),
                None => None,
            },
        ),
{
    let mut out = String::from_str("{\"model\":");
    out.append(hover_model_to_json(&r.model).as_str());
    match &r.markdown {
        Some(md) => {
            out.append(",\"markdown\":");
            out.append(exec_jstr(md.as_str()).as_str());
        },
        None => (),
    }
    out.append("}");
    proof {
        assert(out@ =~= json_of_response(
            r.model@,
            match r.markdown {
                Some(ref md) => Some(md@),
                None => None,
            },
        ));
    }
    out
}

} // verus!
