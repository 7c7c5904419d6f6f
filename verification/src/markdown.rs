//! Markdown rendering of a hover payload: fixed section order, per
//! section caps, and a whole-line byte-budget truncation with a single
//! trailer line. The rendering and its truncation markers are stated as
//! functions of the payload.

use vstd::prelude::*;

verus! {

use crate::hover::HoverModel;
use crate::hover::ModelView;
use crate::order::char_seq_le;
use crate::order::spec_dedup_strs;
use crate::order::spec_sort_strs;
use crate::order::str_eq;
use crate::order::str_le;
use crate::resolve::exec_join_from;
use crate::resolve::join_from;
use vstd::string::StrSliceExecFns;
use vstd::string::StringExecFns;

/// The byte length of a rendering, as a length fits in memory.
pub open spec fn md_byte_len(s: Seq<char>) -> usize {
    vstd::utf8::encode_utf8(s).len() as usize
}

/// A rendering and the names of the sections that lost content.
#[derive(Debug)]
pub struct MarkdownRenderResult {
    pub markdown: String,
    pub truncated_sections: Vec<String>,
}

/// The Unicode White_Space characters, as `str::trim` removes them.
pub open spec fn spec_is_ws(c: char) -> bool {
    let v = c as u32;
    (9 <= v && v <= 13) || v == 32 || v == 0x85 || v == 0xA0 || v == 0x1680 || (0x2000 <= v && v
        <= 0x200A) || v == 0x2028 || v == 0x2029 || v == 0x202F || v == 0x205F || v == 0x3000
}

fn is_ws(c: char) -> (r: bool)
    ensures
        r == spec_is_ws(c),
{
    let v = c as u32;
    (9 <= v && v <= 13) || v == 32 || v == 0x85 || v == 0xA0 || v == 0x1680 || (0x2000 <= v && v
        <= 0x200A) || v == 0x2028 || v == 0x2029 || v == 0x202F || v == 0x205F || v == 0x3000
}

/// How many leading whitespace characters the text carries.
pub open spec fn lead_ws(s: Seq<char>) -> int
    decreases s.len(),
{
    if s.len() == 0 {
        0
    } else if !spec_is_ws(s[0]) {
        0
    } else {
        1 + lead_ws(s.drop_first())
    }
}

/// How many trailing whitespace characters the text carries.
pub open spec fn trail_ws(s: Seq<char>) -> int
    decreases s.len(),
{
    if s.len() == 0 {
        0
    } else if !spec_is_ws(s.last()) {
        0
    } else {
        1 + trail_ws(s.drop_last())
    }
}

/// The text with whitespace removed from both ends.
pub open spec fn spec_trim(s: Seq<char>) -> Seq<char> {
    let rest = s.skip(lead_ws(s));
    rest.take(rest.len() - trail_ws(rest))
}

proof fn lemma_lead_ws_bound(s: Seq<char>)
    ensures
        0 <= lead_ws(s) <= s.len(),
    decreases s.len(),
{
    if s.len() > 0 && spec_is_ws(s[0]) {
        lemma_lead_ws_bound(s.drop_first());
    }
}

proof fn lemma_trail_ws_bound(s: Seq<char>)
    ensures
        0 <= trail_ws(s) <= s.len(),
    decreases s.len(),
{
    if s.len() > 0 && spec_is_ws(s.last()) {
        lemma_trail_ws_bound(s.drop_last());
    }
}

/// Trims whitespace from both ends, as the related-symbol lines are
/// displayed.
fn trim_text(s: &str) -> (r: String)
    ensures
        r@ == spec_trim(s@),
{
    let n = s.unicode_len();
    let mut a: usize = 0;
    proof {
        lemma_lead_ws_bound(s@);
        assert(s@.skip(0) =~= s@);
    }
    while a < n && is_ws(s.get_char(a))
        invariant
            0 <= a <= n,
            n == s@.len(),
            lead_ws(s@) == a + lead_ws(s@.skip(a as int)),
            lead_ws(s@.skip(a as int)) >= 0,
        decreases n - a,
    {
        proof {
            assert(s@.skip(a as int)[0] == s@[a as int]);
            assert(s@.skip(a as int).drop_first() =~= s@.skip(a + 1));
            lemma_lead_ws_bound(s@.skip(a + 1));
        }
        a += 1;
    }
    proof {
        if a < n {
            assert(s@.skip(a as int)[0] == s@[a as int]);
        }
        assert(lead_ws(s@.skip(a as int)) == 0);
        assert(lead_ws(s@) == a);
    }
    let ghost rest = s@.skip(a as int);
    let mut b: usize = n;
    proof {
        lemma_trail_ws_bound(rest);
        assert(rest.take(n - a) =~= rest);
    }
    while b > a && is_ws(s.get_char(b - 1))
        invariant
            a <= b <= n,
            n == s@.len(),
            rest == s@.skip(a as int),
            trail_ws(rest) == (n - b) + trail_ws(rest.take(b - a)),
            trail_ws(rest.take(b - a)) >= 0,
        decreases b,
    {
        proof {
            assert(rest.take(b - a).last() == s@[b - 1]);
            assert(rest.take(b - a).drop_last() =~= rest.take(b - 1 - a));
            lemma_trail_ws_bound(rest.take(b - 1 - a));
        }
        b -= 1;
    }
    proof {
        if b > a {
            assert(rest.take(b - a).last() == s@[b - 1]);
        }
        assert(trail_ws(rest.take(b - a)) == 0);
        assert(trail_ws(rest) == n - b);
    }
    let out = s.substring_char(a, b);
    proof {
        assert(out@ =~= rest.take(rest.len() - trail_ws(rest)));
    }
    String::from_str(out)
}

/// A line with a trailing carriage return removed.
pub open spec fn strip_cr(x: Seq<char>) -> Seq<char> {
    if x.len() > 0 && x.last() == '\r' {
        x.drop_last()
    } else {
        x
    }
}

/// The display lines of the text from `i` on, the current line starting
/// at `start`: terminator-separated, with no phantom line after a final
/// terminator.
pub open spec fn spec_split_from(s: Seq<char>, start: int, i: int) -> Seq<Seq<char>>
    decreases s.len() - i,
{
    if i < 0 || i >= s.len() {
        if start < s.len() {
            seq![strip_cr(s.subrange(start, s.len() as int))]
        } else {
            Seq::empty()
        }
    } else if s[i] == '\n' {
        seq![strip_cr(s.subrange(start, i))] + spec_split_from(s, i + 1, i + 1)
    } else {
        spec_split_from(s, start, i + 1)
    }
}

/// The display lines of a text.
pub open spec fn spec_split_lines(s: Seq<char>) -> Seq<Seq<char>> {
    spec_split_from(s, 0, 0)
}

/// Splits text into display lines.
fn split_lines(s: &str) -> (r: Vec<String>)
    ensures
        r.deep_view() == spec_split_lines(s@),
{
    let n = s.unicode_len();
    let mut out: Vec<String> = Vec::new();
    let mut start: usize = 0;
    let mut i: usize = 0;
    while i < n
        invariant
            start <= i <= n,
            n == s@.len(),
            out.deep_view() + spec_split_from(s@, start as int, i as int) =~= spec_split_lines(s@),
        decreases n - i,
    {
        if s.get_char(i) == '\n' {
            let mut end = i;
            if end > start && s.get_char(end - 1) == '\r' {
                end = end - 1;
            }
            let ghost pre = out.deep_view();
            let piece = s.substring_char(start, end);
            out.push(String::from_str(piece));
            proof {
                assert(piece@ =~= strip_cr(s@.subrange(start as int, i as int))) by {
                    if i > start && s@[i - 1] == '\r' {
                        assert(s@.subrange(start as int, i as int).last() == s@[i - 1]);
                        assert(s@.subrange(start as int, i as int).drop_last() =~= s@.subrange(
                            start as int,
                            i - 1,
                        ));
                    } else {
                        if i > start {
                            assert(s@.subrange(start as int, i as int).last() == s@[i - 1]);
                        }
                    }
                }
                assert(out.deep_view() =~= pre.push(piece@));
                assert(out.deep_view() + spec_split_from(s@, i + 1, i + 1) =~= spec_split_lines(
                    s@,
                ));
            }
            start = i + 1;
        }
        i += 1;
    }
    if start < n {
        let mut end = n;
        if end > start && s.get_char(end - 1) == '\r' {
            end = end - 1;
        }
        let ghost pre = out.deep_view();
        let piece = s.substring_char(start, end);
        out.push(String::from_str(piece));
        proof {
            assert(piece@ =~= strip_cr(s@.subrange(start as int, n as int))) by {
                if n > start && s@[n - 1] == '\r' {
                    assert(s@.subrange(start as int, n as int).last() == s@[n - 1]);
                    assert(s@.subrange(start as int, n as int).drop_last() =~= s@.subrange(
                        start as int,
                        n - 1,
                    ));
                } else {
                    if n > start {
                        assert(s@.subrange(start as int, n as int).last() == s@[n - 1]);
                    }
                }
            }
            assert(out.deep_view() =~= pre.push(piece@));
        }
    }
    proof {
        assert(out.deep_view() =~= spec_split_lines(s@));
    }
    out
}

/// The order of facts: by key, then value.
pub open spec fn fact_le(a: (Seq<char>, Seq<char>), b: (Seq<char>, Seq<char>)) -> bool {
    if a.0 != b.0 {
        char_seq_le(a.0, b.0)
    } else {
        char_seq_le(a.1, b.1)
    }
}

/// Inserts a fact into a sorted sequence.
pub open spec fn spec_insert_fact(
    s: Seq<(Seq<char>, Seq<char>)>,
    x: (Seq<char>, Seq<char>),
) -> Seq<(Seq<char>, Seq<char>)>
    decreases s.len(),
{
    if s.len() == 0 {
        seq![x]
    } else if fact_le(s.last(), x) {
        s.push(x)
    } else {
        spec_insert_fact(s.drop_last(), x).push(s.last())
    }
}

/// Sorts facts by key then value: stable and a function of the input.
pub open spec fn spec_sort_facts(s: Seq<(Seq<char>, Seq<char>)>) -> Seq<(Seq<char>, Seq<char>)>
    decreases s.len(),
{
    if s.len() == 0 {
        s
    } else {
        spec_insert_fact(spec_sort_facts(s.drop_last()), s.last())
    }
}

fn insert_fact(acc: Vec<(String, String)>, x: (String, String)) -> (r: Vec<(String, String)>)
    ensures
        r.deep_view() == spec_insert_fact(acc.deep_view(), (x.0@, x.1@)),
    decreases acc.len(),
{
    let mut acc = acc;
    let ghost pre = acc.deep_view();
    let ghost xv = (x.0@, x.1@);
    if acc.len() == 0 {
        acc.push(x);
        proof {
            assert(acc.deep_view() =~= spec_insert_fact(pre, xv));
        }
        return acc;
    }
    let a = &acc[acc.len() - 1];
    let le = if !str_eq(a.0.as_str(), x.0.as_str()) {
        str_le(a.0.as_str(), x.0.as_str())
    } else {
        str_le(a.1.as_str(), x.1.as_str())
    };
    if le {
        acc.push(x);
        proof {
            assert(acc.deep_view() =~= pre.push(xv));
        }
        return acc;
    }
    let last = acc.pop().unwrap();
    proof {
        assert(acc.deep_view() =~= pre.drop_last());
        assert((last.0@, last.1@) == pre.last());
    }
    let mut out = insert_fact(acc, x);
    let ghost mid = out.deep_view();
    out.push(last);
    proof {
        assert(out.deep_view() =~= mid.push(pre.last()));
    }
    out
}

/// Sorts facts for display.
fn sort_facts(v: Vec<(String, String)>) -> (r: Vec<(String, String)>)
    ensures
        r.deep_view() == spec_sort_facts(v.deep_view()),
    decreases v.len(),
{
    let mut v = v;
    let ghost pre = v.deep_view();
    if v.len() == 0 {
        return v;
    }
    let last = v.pop().unwrap();
    proof {
        assert(v.deep_view() =~= pre.drop_last());
        assert((last.0@, last.1@) == pre.last());
    }
    let sorted = sort_facts(v);
    insert_fact(sorted, last)
}

proof fn lemma_insert_fact_len(s: Seq<(Seq<char>, Seq<char>)>, x: (Seq<char>, Seq<char>))
    ensures
        spec_insert_fact(s, x).len() == s.len() + 1,
    decreases s.len(),
{
    if s.len() > 0 && !fact_le(s.last(), x) {
        lemma_insert_fact_len(s.drop_last(), x);
    }
}

/// Sorting the facts keeps their number.
proof fn lemma_sort_facts_len(s: Seq<(Seq<char>, Seq<char>)>)
    ensures
        spec_sort_facts(s).len() == s.len(),
    decreases s.len(),
{
    if s.len() > 0 {
        lemma_sort_facts_len(s.drop_last());
        lemma_insert_fact_len(spec_sort_facts(s.drop_last()), s.last());
    }
}

/// The single truncation trailer line.
pub open spec fn trailer_text() -> Seq<char> {
    "\u{2026} truncated. Use hoverPlus for full detail."@
}

/// The lines a fenced code block adds: the fence with its language, the
/// content capped at `max_lines`, a trailer when cut, and the closing
/// fence; nothing but a marker when the block budget is spent.
pub open spec fn code_block_lines(
    language: Seq<char>,
    content: Seq<char>,
    max_lines: int,
    used: int,
    max_blocks: int,
) -> Seq<Seq<char>> {
    if used >= max_blocks {
        Seq::empty()
    } else {
        let ls = spec_split_lines(content);
        let shown = if ls.len() <= max_lines {
            ls
        } else {
            ls.take(max_lines)
        };
        seq!["```"@ + language] + shown + (if ls.len() > max_lines {
            seq![trailer_text()]
        } else {
            Seq::empty()
        }) + seq!["```"@]
    }
}

/// The markers a fenced code block records.
pub open spec fn code_block_marks(
    content: Seq<char>,
    max_lines: int,
    used: int,
    max_blocks: int,
) -> Seq<Seq<char>> {
    if used >= max_blocks {
        seq!["code_blocks"@]
    } else if spec_split_lines(content).len() > max_lines {
        seq!["code_block_lines"@]
    } else {
        Seq::empty()
    }
}

/// Appends one fenced code block, respecting the per-render block budget
/// and the per-block line cap.
fn push_code_block(
    lines: &mut Vec<String>,
    language: &str,
    content: &str,
    max_lines: usize,
    code_blocks_used: &mut usize,
    max_code_blocks: usize,
    truncated_sections: &mut Vec<String>,
)
    requires
        old(code_blocks_used) < usize::MAX,
    ensures
        final(lines).deep_view() == old(lines).deep_view() + code_block_lines(
            language@,
            content@,
            max_lines as int,
            *old(code_blocks_used) as int,
            max_code_blocks as int,
        ),
        final(truncated_sections).deep_view() == old(truncated_sections).deep_view()
            + code_block_marks(
            content@,
            max_lines as int,
            *old(code_blocks_used) as int,
            max_code_blocks as int,
        ),
        *final(code_blocks_used) as int == if *old(code_blocks_used) < max_code_blocks {
            *old(code_blocks_used) + 1
        } else {
            *old(code_blocks_used) as int
        },
{
    let ghost lines0 = lines.deep_view();
    let ghost marks0 = truncated_sections.deep_view();
    if *code_blocks_used >= max_code_blocks {
        truncated_sections.push(String::from_str("code_blocks"));
        proof {
            assert(truncated_sections.deep_view() =~= marks0.push("code_blocks"@));
            assert(truncated_sections.deep_view() =~= marks0 + seq!["code_blocks"@]);
            assert(lines.deep_view() =~= lines0 + Seq::<Seq<char>>::empty());
        }
        return ;
    }
    let mut fence = String::from_str("```");
    fence.append(language);
    let ghost fence_view = fence@;
    lines.push(fence);
    *code_blocks_used += 1;
    let content_lines = split_lines(content);
    let ghost ls = spec_split_lines(content@);
    let ghost shown = if ls.len() <= max_lines {
        ls
    } else {
        ls.take(max_lines as int)
    };
    let mut i: usize = 0;
    while i < content_lines.len() && i < max_lines
        invariant
            i <= content_lines@.len(),
            i <= max_lines,
            content_lines.deep_view() == ls,
            shown == (if ls.len() <= max_lines {
                ls
            } else {
                ls.take(max_lines as int)
            }),
            lines.deep_view() =~= lines0 + seq![fence_view] + shown.take(i as int),
        decreases content_lines@.len() - i,
    {
        let ghost pre = lines.deep_view();
        lines.push(content_lines[i].clone());
        proof {
            assert(lines.deep_view() =~= pre.push(content_lines@[i as int]@));
            assert(shown.take(i + 1) =~= shown.take(i as int).push(shown[i as int]));
        }
        i += 1;
    }
    proof {
        assert(shown.take(shown.len() as int) =~= shown);
        assert(lines.deep_view() =~= lines0 + seq![fence_view] + shown);
    }
    let cut = content_lines.len() > max_lines;
    if cut {
        truncated_sections.push(String::from_str("code_block_lines"));
        lines.push(String::from_str("\u{2026} truncated. Use hoverPlus for full detail."));
        proof {
            assert(truncated_sections.deep_view() =~= marks0 + seq!["code_block_lines"@]);
            assert(lines.deep_view() =~= lines0 + seq![fence_view] + shown + seq![trailer_text()]);
        }
    } else {
        proof {
            assert(truncated_sections.deep_view() =~= marks0 + Seq::<Seq<char>>::empty());
        }
    }
    lines.push(String::from_str("```"));
    proof {
        assert(fence_view == "```"@ + language@);
        if cut {
            assert(lines.deep_view() =~= (lines0 + seq![fence_view] + shown + seq![
                trailer_text(),
            ]).push("```"@));
            assert(lines.deep_view() =~= lines0 + (seq!["```"@ + language@] + shown + seq![
                trailer_text(),
            ] + seq!["```"@]));
        } else {
            assert(lines.deep_view() =~= (lines0 + seq![fence_view] + shown).push("```"@));
            assert(lines.deep_view() =~= lines0 + (seq!["```"@ + language@] + shown + Seq::<
                Seq<char>,
            >::empty() + seq!["```"@]));
        }
        assert(lines.deep_view() =~= lines0 + code_block_lines(
            language@,
            content@,
            max_lines as int,
            (*code_blocks_used - 1) as int,
            max_code_blocks as int,
        ));
    }
}

/// The lines a capped text section adds.
pub open spec fn text_block_lines(content: Seq<char>, max_lines: int) -> Seq<Seq<char>> {
    let ls = spec_split_lines(content);
    (if ls.len() <= max_lines {
        ls
    } else {
        ls.take(max_lines)
    }) + (if ls.len() > max_lines {
        seq![trailer_text()]
    } else {
        Seq::empty()
    })
}

/// The markers a capped text section records.
pub open spec fn text_block_marks(content: Seq<char>, max_lines: int, section: Seq<char>) -> Seq<
    Seq<char>,
> {
    if spec_split_lines(content).len() > max_lines {
        seq![section]
    } else {
        Seq::empty()
    }
}

/// Appends plain text, capped at a line count.
fn push_text_lines(
    lines: &mut Vec<String>,
    content: &str,
    max_lines: usize,
    section: &str,
    truncated_sections: &mut Vec<String>,
)
    ensures
        final(lines).deep_view() == old(lines).deep_view() + text_block_lines(
            content@,
            max_lines as int,
        ),
        final(truncated_sections).deep_view() == old(truncated_sections).deep_view()
            + text_block_marks(content@, max_lines as int, section@),
{
    let ghost lines0 = lines.deep_view();
    let ghost marks0 = truncated_sections.deep_view();
    let all_lines = split_lines(content);
    let ghost ls = spec_split_lines(content@);
    let ghost shown = if ls.len() <= max_lines {
        ls
    } else {
        ls.take(max_lines as int)
    };
    let mut i: usize = 0;
    while i < all_lines.len() && i < max_lines
        invariant
            i <= all_lines@.len(),
            i <= max_lines,
            all_lines.deep_view() == ls,
            shown == (if ls.len() <= max_lines {
                ls
            } else {
                ls.take(max_lines as int)
            }),
            lines.deep_view() =~= lines0 + shown.take(i as int),
        decreases all_lines@.len() - i,
    {
        let ghost pre = lines.deep_view();
        lines.push(all_lines[i].clone());
        proof {
            assert(lines.deep_view() =~= pre.push(all_lines@[i as int]@));
            assert(shown.take(i + 1) =~= shown.take(i as int).push(shown[i as int]));
        }
        i += 1;
    }
    proof {
        assert(shown.take(shown.len() as int) =~= shown);
        assert(lines.deep_view() =~= lines0 + shown);
    }
    if all_lines.len() > max_lines {
        truncated_sections.push(String::from_str(section));
        lines.push(String::from_str("\u{2026} truncated. Use hoverPlus for full detail."));
        proof {
            assert(truncated_sections.deep_view() =~= marks0 + seq![section@]);
            assert(lines.deep_view() =~= lines0 + shown + seq![trailer_text()]);
        }
    } else {
        proof {
            assert(truncated_sections.deep_view() =~= marks0 + Seq::<Seq<char>>::empty());
        }
    }
    proof {
        assert(lines.deep_view() =~= lines0 + text_block_lines(content@, max_lines as int));
    }
}

/// One rendered fact line.
pub open spec fn fact_line(k: Seq<char>, v: Seq<char>) -> Seq<char> {
    "- **"@ + k + "**: "@ + v
}

fn push_fact_line(lines: &mut Vec<String>, key: &str, value: &str)
    ensures
        final(lines).deep_view() == old(lines).deep_view().push(fact_line(key@, value@)),
{
    let ghost pre = lines.deep_view();
    let mut line = String::from_str("- **");
    line.append(key);
    line.append("**: ");
    line.append(value);
    proof {
        assert(line@ =~= fact_line(key@, value@));
    }
    lines.push(line);
    proof {
        assert(lines.deep_view() =~= pre.push(fact_line(key@, value@)));
    }
}


/// The badge display line: badges sorted and deduplicated on one line.
pub open spec fn badges_line(badges: Seq<Seq<char>>) -> Seq<char> {
    "- **badges**: "@ + join_from(spec_dedup_strs(spec_sort_strs(badges)), ", "@, 0)
}

/// The rendered fact lines: the sorted facts, capped at 20 entries.
pub open spec fn fact_lines(fs: Seq<(Seq<char>, Seq<char>)>) -> Seq<Seq<char>> {
    Seq::new(
        if fs.len() <= 20 {
            fs.len()
        } else {
            20
        },
        |i: int| fact_line(fs[i].0, fs[i].1),
    )
}

/// The Signature, Summary and Facts sections: a single fenced code
/// block capped at 40 lines, the summary capped at 3 lines, the badges
/// line, the sorted facts capped at 20, and a placeholder when there is
/// nothing to show.
#[verifier::opaque]
pub open spec fn head_lines(m: ModelView) -> Seq<Seq<char>> {
    seq!["## Signature"@] + code_block_lines("sea"@, m.primary.signature_or_shape, 40, 0, 2)
        + seq!["## Summary"@] + text_block_lines(m.primary.summary, 3) + seq!["## Facts"@] + (
    if m.primary.badges.len() > 0 {
        seq![badges_line(m.primary.badges)]
    } else {
        Seq::empty()
    }) + fact_lines(spec_sort_facts(m.primary.facts)) + (if m.primary.badges.len() == 0
        && m.primary.facts.len() == 0 {
        seq!["- (no facts)"@]
    } else {
        Seq::empty()
    })
}

/// The markers the capped sections record, in emission order.
#[verifier::opaque]
pub open spec fn head_marks(m: ModelView) -> Seq<Seq<char>> {
    code_block_marks(m.primary.signature_or_shape, 40, 0, 2) + text_block_marks(
        m.primary.summary,
        3,
        "summary"@,
    ) + (if m.primary.facts.len() > 20 {
        seq!["facts"@]
    } else {
        Seq::empty()
    })
}

/// The Diagnostics section: only when the resolution is not exact or
/// content was truncated; the confidence, then the sorted, deduplicated
/// markers.
pub open spec fn diagnostics_lines(m: ModelView) -> Seq<Seq<char>> {
    if m.symbol.resolution_confidence != "exact"@ || m.limits.truncated_sections.len() > 0 {
        seq!["## Diagnostics"@] + (if m.symbol.resolution_confidence != "exact"@ {
            seq!["- **resolution**: "@ + m.symbol.resolution_confidence]
        } else {
            Seq::empty()
        }) + (if m.limits.truncated_sections.len() > 0 {
            seq![
                "- **limits**: "@ + join_from(
                    spec_dedup_strs(spec_sort_strs(m.limits.truncated_sections)),
                    ", "@,
                    0,
                ),
            ]
        } else {
            Seq::empty()
        })
    } else {
        Seq::empty()
    }
}

/// The Resolution section, always emitted.
pub open spec fn resolution_lines(m: ModelView) -> Seq<Seq<char>> {
    seq!["## Resolution"@, "<details><summary>Details</summary>"@, Seq::<char>::empty()] + seq![
        "- **qualified**: "@ + m.symbol.qualified_name,
        "- **resolve_id**: "@ + m.symbol.resolve_id,
        "</details>"@,
    ]
}

/// The Expansion section, only for Flow-kind symbols.
pub open spec fn expansion_lines(m: ModelView) -> Seq<Seq<char>> {
    if m.symbol.kind == "Flow"@ {
        seq!["## Expansion"@, "<details><summary>Notes</summary>"@, Seq::<char>::empty()] + seq![
            "- Flow hovers are derived from the parsed document snapshot."@,
            "</details>"@,
        ]
    } else {
        Seq::empty()
    }
}

/// The Usage section, only when related symbols exist.
pub open spec fn usage_lines(m: ModelView) -> Seq<Seq<char>> {
    if m.related.len() > 0 {
        seq!["## Usage"@, "<details><summary>Related symbols</summary>"@, Seq::<char>::empty()]
            + seq![
            "- "@ + crate::text::spec_u64_dec(m.related.len() as int) + " related item(s)"@,
            "</details>"@,
        ]
    } else {
        Seq::empty()
    }
}

/// One rendered related-symbol line, trimmed for display.
pub open spec fn related_line(r: crate::resolve::RelView) -> Seq<char> {
    "- "@ + spec_trim(r.qualified_name) + " ("@ + spec_trim(r.kind) + ")"@
}

/// The Related section, only when related symbols exist.
pub open spec fn related_lines(m: ModelView) -> Seq<Seq<char>> {
    if m.related.len() > 0 {
        seq!["## Related"@] + Seq::new(m.related.len(), |i: int| related_line(m.related[i]))
    } else {
        Seq::empty()
    }
}

/// The sections after Facts, in fixed order.
#[verifier::opaque]
pub open spec fn tail_lines(m: ModelView) -> Seq<Seq<char>> {
    diagnostics_lines(m) + resolution_lines(m) + expansion_lines(m) + usage_lines(m)
        + related_lines(m)
}

/// Every composed line of a rendering, in the fixed section order
/// Signature, Summary, Facts, Diagnostics, Resolution, Expansion,
/// Usage, Related.
#[verifier::opaque]
pub open spec fn render_lines(m: ModelView) -> Seq<Seq<char>> {
    head_lines(m) + tail_lines(m)
}

/// The whole-line prefix of the composed lines fitting the reduced
/// budget, with whether any line was left out.
pub open spec fn spec_kept(lines: Seq<Seq<char>>, limit: usize, i: int, acc: Seq<char>) -> (
    Seq<char>,
    bool,
)
    decreases lines.len() - i,
{
    if i < 0 || i >= lines.len() {
        (acc, false)
    } else {
        let cand = acc + lines[i] + "\n"@;
        if md_byte_len(cand) > limit {
            (acc, true)
        } else {
            spec_kept(lines, limit, i + 1, cand)
        }
    }
}

/// The rendering and its markers as a function of the payload: the
/// composed lines joined; when that exceeds the markdown budget, a
/// whole-line prefix fitting the budget less a 64-byte trailer margin,
/// the single trailer line, and a `markdown` marker.
#[verifier::opaque]
pub open spec fn spec_render(m: ModelView) -> (Seq<char>, Seq<Seq<char>>) {
    let lines = render_lines(m);
    let marks = head_marks(m);
    let md = join_from(lines, "\n"@, 0);
    if md_byte_len(md) <= m.limits.max_markdown_bytes {
        (md, marks)
    } else {
        let limit: usize = if m.limits.max_markdown_bytes >= 64 {
            (m.limits.max_markdown_bytes - 64) as usize
        } else {
            0
        };
        let kb = spec_kept(lines, limit, 0, Seq::empty());
        let marks2 = marks + (if kb.1 {
            seq!["markdown"@]
        } else {
            Seq::empty()
        });
        let fin = kb.0 + trailer_text();
        if md_byte_len(fin) as int <= m.limits.max_markdown_bytes + 64 {
            (fin, marks2)
        } else {
            (Seq::<char>::empty(), marks2)
        }
    }
}

/// Copies the fact pairs for sorting.
fn clone_facts(v: &Vec<(String, String)>) -> (r: Vec<(String, String)>)
    ensures
        r.deep_view() == v.deep_view(),
{
    let mut out: Vec<(String, String)> = Vec::new();
    let mut i: usize = 0;
    while i < v.len()
        invariant
            i <= v@.len(),
            out.deep_view() =~= v.deep_view().take(i as int),
        decreases v@.len() - i,
    {
        let ghost pre = out.deep_view();
        out.push((v[i].0.clone(), v[i].1.clone()));
        proof {
            assert(out.deep_view() =~= pre.push((v@[i as int].0@, v@[i as int].1@)));
            assert(out.deep_view() =~= v.deep_view().take(i + 1));
        }
        i += 1;
    }
    proof {
        assert(v.deep_view().take(v@.len() as int) =~= v.deep_view());
    }
    out
}

/// Composes the Signature, Summary and Facts sections.
fn compose_head(model: &HoverModel, lines: &mut Vec<String>, marks: &mut Vec<String>)
    ensures
        final(lines).deep_view() == old(lines).deep_view() + head_lines(model@),
        final(marks).deep_view() == old(marks).deep_view() + head_marks(model@),
{
    let ghost lines0 = lines.deep_view();
    let ghost marks0 = marks.deep_view();
    let mut code_blocks_used: usize = 0;
    lines.push(String::from_str("## Signature"));
    push_code_block(
        lines,
        "sea",
        model.primary.signature_or_shape.as_str(),
        40,
        &mut code_blocks_used,
        2,
        marks,
    );
    proof {
        assert(lines.deep_view() =~= lines0 + seq!["## Signature"@] + code_block_lines(
            "sea"@,
            model@.primary.signature_or_shape,
            40,
            0,
            2,
        ));
    }
    let ghost lines_sig = lines.deep_view();
    let ghost marks_sig = marks.deep_view();
    lines.push(String::from_str("## Summary"));
    push_text_lines(lines, model.primary.summary.as_str(), 3, "summary", marks);
    proof {
        assert(lines.deep_view() =~= lines_sig + seq!["## Summary"@] + text_block_lines(
            model@.primary.summary,
            3,
        ));
        assert(marks.deep_view() =~= marks_sig + text_block_marks(
            model@.primary.summary,
            3,
            "summary"@,
        ));
    }
    let ghost lines_sum = lines.deep_view();
    let ghost marks_sum = marks.deep_view();
    lines.push(String::from_str("## Facts"));
    if model.primary.badges.len() > 0 {
        let badges = crate::order::dedup_strings(
            crate::order::sort_strings(crate::resolve::clone_strings(&model.primary.badges)),
        );
        let mut line = String::from_str("- **badges**: ");
        line.append(exec_join_from(&badges, ", ", 0).as_str());
        proof {
            assert(line@ =~= badges_line(model@.primary.badges));
        }
        lines.push(line);
    }
    proof {
        assert(lines.deep_view() =~= lines_sum + seq!["## Facts"@] + (
        if model@.primary.badges.len() > 0 {
            seq![badges_line(model@.primary.badges)]
        } else {
            Seq::<Seq<char>>::empty()
        }));
    }
    let ghost lines_badges = lines.deep_view();
    let facts = sort_facts(clone_facts(&model.primary.facts));
    let ghost fs = spec_sort_facts(model@.primary.facts);
    proof {
        lemma_sort_facts_len(model@.primary.facts);
    }
    if facts.len() > 20 {
        let ghost mpre = marks.deep_view();
        marks.push(String::from_str("facts"));
        proof {
            assert(marks.deep_view() =~= mpre.push("facts"@));
        }
    }
    proof {
        assert(marks.deep_view() =~= marks_sum + (if model@.primary.facts.len() > 20 {
            seq!["facts"@]
        } else {
            Seq::<Seq<char>>::empty()
        }));
    }
    let mut k: usize = 0;
    while k < facts.len() && k < 20
        invariant
            k <= facts@.len(),
            k <= 20,
            facts.deep_view() == fs,
            lines.deep_view() =~= lines_badges + fact_lines(fs).take(k as int),
        decreases facts@.len() - k,
    {
        push_fact_line(lines, facts[k].0.as_str(), facts[k].1.as_str());
        proof {
            assert(fact_lines(fs).take(k + 1) =~= fact_lines(fs).take(k as int).push(
                fact_lines(fs)[k as int],
            ));
        }
        k += 1;
    }
    proof {
        assert(lines.deep_view() =~= lines_badges + fact_lines(fs));
    }
    if model.primary.badges.len() == 0 && model.primary.facts.len() == 0 {
        lines.push(String::from_str("- (no facts)"));
    }
    proof {
        reveal(head_lines);
        reveal(head_marks);
        assert(lines.deep_view() =~= lines_badges + fact_lines(fs) + (
        if model@.primary.badges.len() == 0 && model@.primary.facts.len() == 0 {
            seq!["- (no facts)"@]
        } else {
            Seq::<Seq<char>>::empty()
        }));
        assert(lines.deep_view() =~= lines0 + head_lines(model@));
        assert(marks.deep_view() =~= marks0 + head_marks(model@));
    }
}

/// Composes the Diagnostics, Resolution, Expansion, Usage and Related
/// sections.
#[verifier::rlimit(80)]
fn compose_tail(model: &HoverModel, lines: &mut Vec<String>)
    ensures
        final(lines).deep_view() == old(lines).deep_view() + tail_lines(model@),
{
    let ghost lines0 = lines.deep_view();
    let exact = str_eq(model.symbol.resolution_confidence.as_str(), "exact");
    if !exact || model.limits.truncated_sections.len() > 0 {
        lines.push(String::from_str("## Diagnostics"));
        if !exact {
            let mut line = String::from_str("- **resolution**: ");
            line.append(model.symbol.resolution_confidence.as_str());
            lines.push(line);
        }
        if model.limits.truncated_sections.len() > 0 {
            let sections = crate::order::dedup_strings(
                crate::order::sort_strings(
                    crate::resolve::clone_strings(&model.limits.truncated_sections),
                ),
            );
            let mut line = String::from_str("- **limits**: ");
            line.append(exec_join_from(&sections, ", ", 0).as_str());
            lines.push(line);
        }
    }
    proof {
        assert(lines.deep_view() =~= lines0 + diagnostics_lines(model@));
    }
    let ghost lines_diag = lines.deep_view();
    lines.push(String::from_str("## Resolution"));
    lines.push(String::from_str("<details><summary>Details</summary>"));
    lines.push(String::new());
    let mut qline = String::from_str("- **qualified**: ");
    qline.append(model.symbol.qualified_name.as_str());
    lines.push(qline);
    let mut rline = String::from_str("- **resolve_id**: ");
    rline.append(model.symbol.resolve_id.as_str());
    lines.push(rline);
    lines.push(String::from_str("</details>"));
    proof {
        assert(lines.deep_view() =~= lines_diag + resolution_lines(model@));
    }
    let ghost lines_res = lines.deep_view();
    if str_eq(model.symbol.kind.as_str(), "Flow") {
        lines.push(String::from_str("## Expansion"));
        lines.push(String::from_str("<details><summary>Notes</summary>"));
        lines.push(String::new());
        lines.push(
            String::from_str("- Flow hovers are derived from the parsed document snapshot."),
        );
        lines.push(String::from_str("</details>"));
    }
    proof {
        assert(lines.deep_view() =~= lines_res + expansion_lines(model@));
    }
    let ghost lines_exp = lines.deep_view();
    if model.related.len() > 0 {
        lines.push(String::from_str("## Usage"));
        lines.push(String::from_str("<details><summary>Related symbols</summary>"));
        lines.push(String::new());
        let mut cline = String::from_str("- ");
        cline.append(crate::text::usize_to_dec(model.related.len()).as_str());
        cline.append(" related item(s)");
        lines.push(cline);
        lines.push(String::from_str("</details>"));
    }
    proof {
        assert(lines.deep_view() =~= lines_exp + usage_lines(model@));
    }
    let ghost lines_use = lines.deep_view();
    if model.related.len() > 0 {
        lines.push(String::from_str("## Related"));
        let ghost base = lines.deep_view();
        let ghost target = Seq::new(model@.related.len(), |i: int| related_line(model@.related[i]));
        let mut ri: usize = 0;
        while ri < model.related.len()
            invariant
                ri <= model.related@.len(),
                target == Seq::new(
                    model@.related.len(),
                    |i: int| related_line(model@.related[i]),
                ),
                base == lines_use + seq!["## Related"@],
                lines.deep_view() =~= base + target.take(ri as int),
            decreases model.related@.len() - ri,
        {
            let ghost pre = lines.deep_view();
            let mut line = String::from_str("- ");
            line.append(trim_text(model.related[ri].qualified_name.as_str()).as_str());
            line.append(" (");
            line.append(trim_text(model.related[ri].kind.as_str()).as_str());
            line.append(")");
            proof {
                assert(line@ =~= related_line(model@.related[ri as int]));
            }
            lines.push(line);
            proof {
                assert(lines.deep_view() =~= pre.push(target[ri as int]));
                assert(lines.deep_view() =~= base + target.take(ri + 1));
            }
            ri += 1;
        }
        proof {
            assert(lines.deep_view() =~= base + target);
        }
    }
    proof {
        reveal(tail_lines);
        assert(lines.deep_view() =~= lines_use + related_lines(model@));
        assert(lines.deep_view() =~= lines0 + tail_lines(model@));
    }
}

/// Projects a hover payload into Markdown: the rendering and its
/// truncation markers are exactly `spec_render` of the payload, and the
/// rendering never exceeds the markdown budget plus the 64-byte trailer
/// margin.
#[verifier::rlimit(100)]
pub fn render_markdown(model: &HoverModel) -> (r: MarkdownRenderResult)
    ensures
        r.markdown@ == spec_render(model@).0,
        r.truncated_sections.deep_view() == spec_render(model@).1,
        md_byte_len(r.markdown@) as int <= model.limits.max_markdown_bytes + 64,
{
    let mut lines: Vec<String> = Vec::new();
    let mut truncated_sections: Vec<String> = Vec::new();
    compose_head(model, &mut lines, &mut truncated_sections);
    compose_tail(model, &mut lines);
    proof {
        reveal(render_lines);
        assert(lines.deep_view() =~= render_lines(model@));
        assert(truncated_sections.deep_view() =~= head_marks(model@));
    }
    let markdown = exec_join_from(&lines, "\n", 0);
    let max_bytes = model.limits.max_markdown_bytes;
    if markdown.as_str().len() <= max_bytes {
        proof {
            reveal(spec_render);
            assert(markdown@ == spec_render(model@).0);
            assert(truncated_sections.deep_view() =~= spec_render(model@).1);
        }
        return MarkdownRenderResult { markdown, truncated_sections };
    }
    // whole-line re-emission under the budget less the trailer margin
    let limit = if max_bytes >= 64 {
        max_bytes - 64
    } else {
        0
    };
    let ghost kspec = spec_kept(lines.deep_view(), limit, 0, Seq::<char>::empty());
    let mut kept = String::new();
    let mut li: usize = 0;
    let mut cut = false;
    while li < lines.len() && !cut
        invariant
            li <= lines@.len(),
            !cut ==> spec_kept(lines.deep_view(), limit, li as int, kept@) == kspec,
            cut ==> kspec == (kept@, true),
            truncated_sections.deep_view() =~= head_marks(model@) + (if cut {
                seq!["markdown"@]
            } else {
                Seq::<Seq<char>>::empty()
            }),
        decreases lines@.len() - li + (if cut {
            0int
        } else {
            1int
        }),
    {
        let mut cand = kept.clone();
        cand.append(lines[li].as_str());
        cand.append("\n");
        proof {
            assert(cand@ =~= kept@ + lines.deep_view()[li as int] + "\n"@);
        }
        if cand.as_str().len() > limit {
            let ghost mpre = truncated_sections.deep_view();
            truncated_sections.push(String::from_str("markdown"));
            proof {
                reveal_with_fuel(spec_kept, 2);
                assert(spec_kept(lines.deep_view(), limit, li as int, kept@) == (kept@, true));
                assert(mpre =~= head_marks(model@));
                assert(truncated_sections.deep_view() =~= mpre.push("markdown"@));
                assert(truncated_sections.deep_view() =~= head_marks(model@).push("markdown"@));
                assert(head_marks(model@).push("markdown"@) =~= head_marks(model@) + seq![
                    "markdown"@,
                ]);
                assert(truncated_sections.deep_view() =~= head_marks(model@) + seq!["markdown"@]);
            }
            cut = true;
        } else {
            proof {
                reveal_with_fuel(spec_kept, 2);
                assert(spec_kept(lines.deep_view(), limit, li as int, kept@) == spec_kept(
                    lines.deep_view(),
                    limit,
                    li + 1,
                    cand@,
                ));
            }
            kept = cand;
            li += 1;
        }
    }
    proof {
        if !cut {
            reveal_with_fuel(spec_kept, 2);
            assert(lines.deep_view().len() == lines@.len());
            assert(li as int >= lines.deep_view().len());
            assert(spec_kept(lines.deep_view(), limit, li as int, kept@) == (kept@, false));
            assert(kspec == (kept@, false));
        }
        assert(kspec.0 == kept@);
    }
    kept.append("\u{2026} truncated. Use hoverPlus for full detail.");
    proof {
        assert(kept@ =~= kspec.0 + trailer_text());
    }
    let kl = kept.as_str().len();
    proof {
        reveal(spec_render);
        assert(truncated_sections.deep_view() =~= spec_render(model@).1);
    }
    if kl < 64 || kl - 64 <= max_bytes {
        proof {
            assert(kept@ == spec_render(model@).0);
        }
        MarkdownRenderResult { markdown: kept, truncated_sections }
    } else {
        // cannot arise from the line loop above; kept as a checked guard
        // so the byte bound holds unconditionally
        let empty = String::new();
        proof {
            assert(vstd::utf8::encode_utf8(empty@) =~= Seq::<u8>::empty());
            assert(empty@ =~= spec_render(model@).0);
        }
        MarkdownRenderResult { markdown: empty, truncated_sections }
    }
}
} // verus!
