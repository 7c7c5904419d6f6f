//! Navigation: go-to-definition and find-references over the semantic
//! index, with deterministic ordering and deduplication of locations.

use vstd::prelude::*;

verus! {

use crate::index::SemanticIndex;
use crate::index::spec_definition_range;
use crate::index::spec_refs_from;
use crate::index::spec_symbol_at_from;
use crate::order::char_seq_le;
use crate::order::str_eq;
use crate::order::str_le;
use crate::position::LineIndex;
use crate::position::Position;
use crate::symbols::ByteRange;
use vstd::string::StringExecFns;

/// One place in one document.
#[derive(Debug)]
pub struct Location {
    pub uri: String,
    pub start: Position,
    pub end: Position,
}

/// Mathematical image of a location.
#[verifier::ext_equal]
pub struct LocView {
    pub uri: Seq<char>,
    pub start: Position,
    pub end: Position,
}

impl View for Location {
    type V = LocView;

    open spec fn view(&self) -> LocView {
        LocView { uri: self.uri@, start: self.start, end: self.end }
    }
}

impl DeepView for Location {
    type V = LocView;

    open spec fn deep_view(&self) -> LocView {
        self@
    }
}

impl Clone for Location {
    fn clone(&self) -> (r: Self)
        ensures
            r@ == self@,
    {
        Location { uri: self.uri.clone(), start: self.start, end: self.end }
    }
}

/// The location of a byte range of one document.
pub open spec fn spec_location(uri: Seq<char>, li: LineIndex, range: ByteRange) -> LocView {
    LocView {
        uri: uri,
        start: li.spec_position_of(range.start),
        end: li.spec_position_of(range.end),
    }
}

impl SemanticIndex {
    /// Maps a byte range of the indexed document to a protocol location.
    pub fn lsp_location(uri: &str, line_index: &LineIndex, range: ByteRange) -> (r: Location)
        requires
            line_index.wf(),
        ensures
            r@ == spec_location(uri@, *line_index, range),
    {
        Location {
            uri: String::from_str(uri),
            start: line_index.position_of(range.start),
            end: line_index.position_of(range.end),
        }
    }
}

/// The order of locations: by document, then start line and column, then
/// end line and column.
pub open spec fn loc_le(a: LocView, b: LocView) -> bool {
    if a.uri != b.uri {
        char_seq_le(a.uri, b.uri)
    } else if a.start.line != b.start.line {
        a.start.line < b.start.line
    } else if a.start.character != b.start.character {
        a.start.character < b.start.character
    } else if a.end.line != b.end.line {
        a.end.line < b.end.line
    } else {
        a.end.character <= b.end.character
    }
}

/// Inserts a location into a sorted sequence.
pub open spec fn spec_insert_loc(s: Seq<LocView>, x: LocView) -> Seq<LocView>
    decreases s.len(),
{
    if s.len() == 0 {
        seq![x]
    } else if loc_le(s.last(), x) {
        s.push(x)
    } else {
        spec_insert_loc(s.drop_last(), x).push(s.last())
    }
}

/// Sorts locations: stable and a function of the input.
pub open spec fn spec_sort_loc(s: Seq<LocView>) -> Seq<LocView>
    decreases s.len(),
{
    if s.len() == 0 {
        s
    } else {
        spec_insert_loc(spec_sort_loc(s.drop_last()), s.last())
    }
}

/// Keeps the first of every run of equal neighbours.
pub open spec fn spec_dedup_loc(s: Seq<LocView>) -> Seq<LocView>
    decreases s.len(),
{
    if s.len() <= 1 {
        s
    } else if s[s.len() - 2] == s.last() {
        spec_dedup_loc(s.drop_last())
    } else {
        spec_dedup_loc(s.drop_last()).push(s.last())
    }
}

fn exec_loc_le(a: &Location, b: &Location) -> (r: bool)
    ensures
        r == loc_le(a@, b@),
{
    if !str_eq(a.uri.as_str(), b.uri.as_str()) {
        str_le(a.uri.as_str(), b.uri.as_str())
    } else if a.start.line != b.start.line {
        a.start.line < b.start.line
    } else if a.start.character != b.start.character {
        a.start.character < b.start.character
    } else if a.end.line != b.end.line {
        a.end.line < b.end.line
    } else {
        a.end.character <= b.end.character
    }
}

fn exec_loc_eq(a: &Location, b: &Location) -> (r: bool)
    ensures
        r == (a@ == b@),
{
    let r = str_eq(a.uri.as_str(), b.uri.as_str()) && a.start.line == b.start.line
        && a.start.character == b.start.character && a.end.line == b.end.line && a.end.character
        == b.end.character;
    proof {
        if r {
            assert(a@ =~= b@);
        }
    }
    r
}

fn insert_loc(acc: Vec<Location>, x: Location) -> (r: Vec<Location>)
    ensures
        r.deep_view() == spec_insert_loc(acc.deep_view(), x@),
    decreases acc.len(),
{
    let mut acc = acc;
    let ghost pre = acc.deep_view();
    if acc.len() == 0 {
        let ghost xv = x@;
        acc.push(x);
        proof {
            assert(acc.deep_view() =~= spec_insert_loc(pre, xv));
        }
        return acc;
    }
    if exec_loc_le(&acc[acc.len() - 1], &x) {
        let ghost xv = x@;
        acc.push(x);
        proof {
            assert(acc.deep_view() =~= pre.push(xv));
        }
        return acc;
    }
    let last = acc.pop().unwrap();
    proof {
        assert(acc.deep_view() =~= pre.drop_last());
        assert(last@ == pre.last());
    }
    let mut out = insert_loc(acc, x);
    let ghost mid = out.deep_view();
    out.push(last);
    proof {
        assert(out.deep_view() =~= mid.push(pre.last()));
    }
    out
}

/// Sorts locations deterministically.
pub fn sort_locations(v: Vec<Location>) -> (r: Vec<Location>)
    ensures
        r.deep_view() == spec_sort_loc(v.deep_view()),
    decreases v.len(),
{
    let mut v = v;
    let ghost pre = v.deep_view();
    if v.len() == 0 {
        return v;
    }
    let last = v.pop().unwrap();
    proof {
        assert(v.deep_view() =~= pre.drop_last());
        assert(last@ == pre.last());
    }
    let sorted = sort_locations(v);
    insert_loc(sorted, last)
}

/// Drops every location equal to its predecessor.
pub fn dedup_locations(v: Vec<Location>) -> (r: Vec<Location>)
    ensures
        r.deep_view() == spec_dedup_loc(v.deep_view()),
    decreases v.len(),
{
    let mut v = v;
    let ghost pre = v.deep_view();
    if v.len() <= 1 {
        return v;
    }
    let last = v.pop().unwrap();
    proof {
        assert(v.deep_view() =~= pre.drop_last());
        assert(last@ == pre.last());
    }
    let keep = !exec_loc_eq(&v[v.len() - 1], &last);
    let ghost lv = last@;
    let mut out = dedup_locations(v);
    let ghost mid = out.deep_view();
    if keep {
        out.push(last);
        proof {
            assert(out.deep_view() =~= mid.push(lv));
        }
    }
    out
}

/// What go-to-definition yields: nothing at whitespace or for a symbol
/// without a recorded definition; the occurrence's own range when the
/// cursor stands in a declaration's name; else the recorded definition
/// range of its kind and name.
pub open spec fn spec_goto_definition(
    uri: Seq<char>,
    li: LineIndex,
    position: Position,
    idx: SemanticIndex,
) -> Option<LocView> {
    match li.spec_offset_of(position) {
        None => None,
        Some(off) => match spec_symbol_at_from(idx.occurrences.deep_view(), off as int, 0) {
            None => None,
            Some(occ) => if occ.is_definition {
                Some(spec_location(uri, li, occ.range))
            } else {
                match spec_definition_range(idx.occurrences.deep_view(), occ.kind, occ.name) {
                    None => None,
                    Some(range) => Some(spec_location(uri, li, range)),
                }
            },
        },
    }
}

/// Go-to-definition: hovering a declaration takes you to itself; a
/// reference goes to the recorded definition of its (kind, name).
pub fn goto_definition(
    uri: &str,
    line_index: &LineIndex,
    position: Position,
    index: &SemanticIndex,
) -> (r: Option<Location>)
    requires
        line_index.wf(),
    ensures
        match r {
            Some(loc) => spec_goto_definition(uri@, *line_index, position, *index) == Some(loc@),
            None => spec_goto_definition(uri@, *line_index, position, *index) is None,
        },
{
    let offset = match line_index.offset_of(position) {
        None => {
            return None;
        },
        Some(o) => o,
    };
    let occ = match index.symbol_at_offset(offset) {
        None => {
            return None;
        },
        Some(o) => o,
    };
    let def_range = if occ.is_definition {
        occ.range
    } else {
        match index.definition_range(occ.kind, occ.name.as_str()) {
            None => {
                return None;
            },
            Some(r) => r,
        }
    };
    Some(SemanticIndex::lsp_location(uri, line_index, def_range))
}

/// The raw reference locations of one occurrence, with the declaration
/// appended when requested and recorded.
pub open spec fn spec_reference_locs(
    uri: Seq<char>,
    li: LineIndex,
    idx: SemanticIndex,
    occ: crate::symbols::OccView,
    include_declaration: bool,
) -> Seq<LocView> {
    let refs = spec_refs_from(idx.occurrences.deep_view(), occ.kind, occ.name, 0);
    let base = Seq::new(refs.len(), |i: int| spec_location(uri, li, refs[i]));
    if include_declaration {
        match spec_definition_range(idx.occurrences.deep_view(), occ.kind, occ.name) {
            Some(range) => base.push(spec_location(uri, li, range)),
            None => base,
        }
    } else {
        base
    }
}

/// What find-references yields: the reference locations of the
/// occurrence at the position, with the declaration when requested,
/// sorted by document and position and with exact duplicates dropped;
/// empty when nothing resolves.
pub open spec fn spec_find_references(
    uri: Seq<char>,
    li: LineIndex,
    position: Position,
    idx: SemanticIndex,
    include_declaration: bool,
) -> Seq<LocView> {
    match li.spec_offset_of(position) {
        None => Seq::empty(),
        Some(off) => match spec_symbol_at_from(idx.occurrences.deep_view(), off as int, 0) {
            None => Seq::empty(),
            Some(occ) => spec_dedup_loc(
                spec_sort_loc(spec_reference_locs(uri, li, idx, occ, include_declaration)),
            ),
        },
    }
}

/// Find-references over the indexed document.
pub fn find_references(
    uri: &str,
    line_index: &LineIndex,
    position: Position,
    index: &SemanticIndex,
    include_declaration: bool,
) -> (r: Vec<Location>)
    requires
        line_index.wf(),
    ensures
        r.deep_view() == spec_find_references(
            uri@,
            *line_index,
            position,
            *index,
            include_declaration,
        ),
{
    let offset = match line_index.offset_of(position) {
        None => {
            let r: Vec<Location> = Vec::new();
            proof {
                assert(r.deep_view() =~= Seq::<LocView>::empty());
            }
            return r;
        },
        Some(o) => o,
    };
    let occ = match index.symbol_at_offset(offset) {
        None => {
            let r: Vec<Location> = Vec::new();
            proof {
                assert(r.deep_view() =~= Seq::<LocView>::empty());
            }
            return r;
        },
        Some(o) => o,
    };
    let ranges = index.reference_ranges(occ.kind, occ.name.as_str());
    let ghost refs = spec_refs_from(index.occurrences.deep_view(), occ@.kind, occ@.name, 0);
    let ghost base = Seq::new(refs.len(), |i: int| spec_location(uri@, *line_index, refs[i]));
    let mut locations: Vec<Location> = Vec::new();
    let mut i: usize = 0;
    while i < ranges.len()
        invariant
            i <= ranges@.len(),
            ranges@ == refs,
            line_index.wf(),
            base == Seq::new(refs.len(), |k: int| spec_location(uri@, *line_index, refs[k])),
            locations.deep_view() =~= base.take(i as int),
        decreases ranges@.len() - i,
    {
        let ghost pre = locations.deep_view();
        locations.push(SemanticIndex::lsp_location(uri, line_index, ranges[i]));
        proof {
            assert(locations.deep_view() =~= pre.push(locations@.last()@));
            assert(locations.deep_view() =~= base.take(i + 1));
        }
        i += 1;
    }
    proof {
        assert(locations.deep_view() =~= base);
    }
    if include_declaration {
        match index.definition_range(occ.kind, occ.name.as_str()) {
            Some(def_range) => {
                let ghost pre = locations.deep_view();
                locations.push(SemanticIndex::lsp_location(uri, line_index, def_range));
                proof {
                    assert(locations.deep_view() =~= pre.push(locations@.last()@));
                }
            },
            None => (),
        }
    }
    proof {
        assert(locations.deep_view() =~= spec_reference_locs(
            uri@,
            *line_index,
            *index,
            occ@,
            include_declaration,
        ));
    }
    dedup_locations(sort_locations(locations))
}


/// The order of locations is total.
proof fn lemma_loc_le_total(a: LocView, b: LocView)
    ensures
        loc_le(a, b) || loc_le(b, a),
{
    crate::order::lemma_char_seq_le_total(a.uri, b.uri);
}

/// The order of locations is transitive.
proof fn lemma_loc_le_trans(a: LocView, b: LocView, c: LocView)
    requires
        loc_le(a, b),
        loc_le(b, c),
    ensures
        loc_le(a, c),
{
    if a.uri != b.uri && b.uri != c.uri {
        crate::order::lemma_char_seq_le_trans(a.uri, b.uri, c.uri);
        if a.uri == c.uri {
            crate::order::lemma_char_seq_le_antisym(a.uri, b.uri);
        }
    }
}

/// Whether a location sequence is ordered.
pub open spec fn locs_sorted(s: Seq<LocView>) -> bool {
    forall|i: int, j: int| 0 <= i < j < s.len() ==> loc_le(#[trigger] s[i], #[trigger] s[j])
}

/// Inserting into a sorted location sequence keeps it sorted and adds
/// exactly the new location.
proof fn lemma_insert_loc_sorted(s: Seq<LocView>, x: LocView)
    requires
        locs_sorted(s),
    ensures
        locs_sorted(spec_insert_loc(s, x)),
        spec_insert_loc(s, x).to_multiset() == s.to_multiset().insert(x),
    decreases s.len(),
{
    broadcast use vstd::seq_lib::group_seq_properties;

    if s.len() == 0 {
        assert(spec_insert_loc(s, x) =~= seq![x]);
        assert(s.to_multiset() =~= vstd::multiset::Multiset::<LocView>::empty());
        assert(seq![x].to_multiset() =~= vstd::multiset::Multiset::<LocView>::empty().insert(x));
    } else if loc_le(s.last(), x) {
        let r = s.push(x);
        assert forall|i: int, j: int| 0 <= i < j < r.len() implies loc_le(r[i], r[j]) by {
            if j == r.len() - 1 {
                if i < s.len() - 1 {
                    lemma_loc_le_trans(r[i], s.last(), x);
                }
            }
        }
    } else {
        lemma_loc_le_total(s.last(), x);
        let head = s.drop_last();
        lemma_insert_loc_sorted(head, x);
        let inner = spec_insert_loc(head, x);
        let r = inner.push(s.last());
        assert forall|i: int, j: int| 0 <= i < j < r.len() implies loc_le(r[i], r[j]) by {
            if j == r.len() - 1 {
                assert(inner.to_multiset().contains(inner[i]));
                assert(head.to_multiset().insert(x).contains(inner[i]));
                if inner[i] == x {
                    assert(loc_le(x, s.last()));
                } else {
                    assert(head.to_multiset().contains(inner[i]));
                    let k = choose|k: int| 0 <= k < head.len() && head[k] == inner[i];
                    assert(s[k] == head[k]);
                    assert(loc_le(s[k], s.last()));
                }
            }
        }
        assert(s =~= head.push(s.last()));
        assert(s.to_multiset() =~= head.to_multiset().insert(s.last()));
        assert(r.to_multiset() =~= inner.to_multiset().insert(s.last()));
    }
}

/// The location sort orders its input and keeps exactly its locations.
pub proof fn lemma_sort_loc_sorted(s: Seq<LocView>)
    ensures
        locs_sorted(spec_sort_loc(s)),
        spec_sort_loc(s).to_multiset() == s.to_multiset(),
    decreases s.len(),
{
    broadcast use vstd::seq_lib::group_seq_properties;

    if s.len() > 0 {
        lemma_sort_loc_sorted(s.drop_last());
        lemma_insert_loc_sorted(spec_sort_loc(s.drop_last()), s.last());
        assert(s =~= s.drop_last().push(s.last()));
        assert(s.to_multiset() =~= s.drop_last().to_multiset().insert(s.last()));
    }
}

/// Deduplication keeps a sorted sequence sorted, leaves no equal
/// neighbours, and keeps exactly the distinct locations.
pub proof fn lemma_dedup_loc_sorted(s: Seq<LocView>)
    requires
        locs_sorted(s),
    ensures
        locs_sorted(spec_dedup_loc(s)),
        forall|i: int|
            0 < i < spec_dedup_loc(s).len() ==> spec_dedup_loc(s)[i - 1] != #[trigger] spec_dedup_loc(
                s,
            )[i],
        forall|x: LocView| #[trigger] spec_dedup_loc(s).contains(x) <==> s.contains(x),
    decreases s.len(),
{
    let d = spec_dedup_loc(s);
    if s.len() <= 1 {
        assert(forall|x: LocView| d.contains(x) <==> s.contains(x));
    } else {
        let head = s.drop_last();
        assert(locs_sorted(head));
        lemma_dedup_loc_sorted(head);
        let dh = spec_dedup_loc(head);
        if s[s.len() - 2] == s.last() {
            assert(head.contains(s.last())) by {
                assert(head[s.len() - 2] == s.last());
            }
            assert forall|x: LocView| #[trigger] d.contains(x) <==> s.contains(x) by {
                if s.contains(x) {
                    let k = choose|k: int| 0 <= k < s.len() && s[k] == x;
                    if k == s.len() - 1 {
                        assert(head[s.len() - 2] == x);
                        assert(head.contains(x));
                    } else {
                        assert(head[k] == x);
                        assert(head.contains(x));
                    }
                }
                if d.contains(x) {
                    let k = choose|k: int| 0 <= k < head.len() && head[k] == x;
                    assert(s[k] == x);
                }
            }
        } else {
            // the new last element exceeds everything kept from the head
            assert forall|i: int, j: int| 0 <= i < j < d.len() implies loc_le(d[i], d[j]) by {
                if j == d.len() - 1 {
                    assert(dh.contains(d[i]));
                    assert(head.contains(d[i]));
                    let k = choose|k: int| 0 <= k < head.len() && head[k] == d[i];
                    assert(loc_le(s[k], s.last())) by {
                        assert(k < s.len() - 1);
                    }
                }
            }
            assert forall|i: int| 0 < i < d.len() implies #[trigger] d[i - 1] != d[i] by {
                if i == d.len() - 1 {
                    if d.len() >= 2 {
                        assert(dh.contains(d[i - 1]));
                        assert(head.contains(d[i - 1]));
                        let k = choose|k: int| 0 <= k < head.len() && head[k] == d[i - 1];
                        if d[i - 1] == s.last() {
                            // a head entry equal to the last would make the
                            // neighbour of the last equal to it
                            assert(loc_le(s[k], s[s.len() - 2]));
                            assert(loc_le(s[s.len() - 2], s.last()));
                            assert(loc_le(s.last(), s[s.len() - 2])) by {
                                assert(loc_le(s[k], s[s.len() - 2]));
                            }
                            lemma_loc_eq_from_le(s[s.len() - 2], s.last());
                        }
                    }
                }
            }
            assert forall|x: LocView| #[trigger] d.contains(x) <==> s.contains(x) by {
                if s.contains(x) {
                    let k = choose|k: int| 0 <= k < s.len() && s[k] == x;
                    if k < s.len() - 1 {
                        assert(head[k] == x);
                        assert(head.contains(x));
                        assert(dh.contains(x));
                        assert(d[choose|m: int| 0 <= m < dh.len() && dh[m] == x] == x);
                    } else {
                        assert(d.last() == x);
                    }
                }
                if d.contains(x) {
                    let k = choose|k: int| 0 <= k < d.len() && d[k] == x;
                    if k < d.len() - 1 {
                        assert(dh.contains(x));
                        assert(head.contains(x));
                        let m = choose|m: int| 0 <= m < head.len() && head[m] == x;
                        assert(s[m] == x);
                    } else {
                        assert(s.last() == x);
                    }
                }
            }
        }
    }
}

/// Two locations at or below one another are equal.
proof fn lemma_loc_eq_from_le(a: LocView, b: LocView)
    requires
        loc_le(a, b),
        loc_le(b, a),
    ensures
        a == b,
{
    if a.uri != b.uri {
        crate::order::lemma_char_seq_le_antisym(a.uri, b.uri);
    }
    assert(a =~= b);
}

/// Definition self-reference: when the cursor stands inside a
/// declaration's own name, go-to-definition answers that declaration's
/// own range.
pub proof fn lemma_definition_self_reference(
    uri: Seq<char>,
    li: LineIndex,
    position: Position,
    idx: SemanticIndex,
)
    requires
        li.spec_offset_of(position) is Some,
        ({
            let off = li.spec_offset_of(position)->0;
            let occ = spec_symbol_at_from(idx.occurrences.deep_view(), off as int, 0);
            occ is Some && occ->0.is_definition
        }),
    ensures
        ({
            let off = li.spec_offset_of(position)->0;
            let occ = spec_symbol_at_from(idx.occurrences.deep_view(), off as int, 0)->0;
            spec_goto_definition(uri, li, position, idx) == Some(spec_location(uri, li, occ.range))
        }),
{
}

/// Reference ordering: find-references always answers a sorted list
/// without duplicated neighbours.
pub proof fn lemma_find_references_ordered(
    uri: Seq<char>,
    li: LineIndex,
    position: Position,
    idx: SemanticIndex,
    include_declaration: bool,
)
    ensures
        locs_sorted(spec_find_references(uri, li, position, idx, include_declaration)),
        ({
            let r = spec_find_references(uri, li, position, idx, include_declaration);
            forall|i: int| 0 < i < r.len() ==> r[i - 1] != #[trigger] r[i]
        }),
{
    if li.spec_offset_of(position) is Some {
        let off = li.spec_offset_of(position)->0;
        if spec_symbol_at_from(idx.occurrences.deep_view(), off as int, 0) is Some {
            let occ = spec_symbol_at_from(idx.occurrences.deep_view(), off as int, 0)->0;
            let raw = spec_reference_locs(uri, li, idx, occ, include_declaration);
            lemma_sort_loc_sorted(raw);
            lemma_dedup_loc_sorted(spec_sort_loc(raw));
        }
    }
}

/// Reference completeness: every recorded reference location, and the
/// declaration when requested, stands in the answer, and nothing else
/// does.
pub proof fn lemma_find_references_complete(
    uri: Seq<char>,
    li: LineIndex,
    position: Position,
    idx: SemanticIndex,
    include_declaration: bool,
)
    requires
        li.spec_offset_of(position) is Some,
        spec_symbol_at_from(
            idx.occurrences.deep_view(),
            li.spec_offset_of(position)->0 as int,
            0,
        ) is Some,
    ensures
        ({
            let occ = spec_symbol_at_from(
                idx.occurrences.deep_view(),
                li.spec_offset_of(position)->0 as int,
                0,
            )->0;
            let r = spec_find_references(uri, li, position, idx, include_declaration);
            forall|x: LocView|
                #[trigger] r.contains(x) <==> spec_reference_locs(
                    uri,
                    li,
                    idx,
                    occ,
                    include_declaration,
                ).contains(x)
        }),
{
    broadcast use vstd::seq_lib::group_seq_properties;

    let off = li.spec_offset_of(position)->0;
    let occ = spec_symbol_at_from(idx.occurrences.deep_view(), off as int, 0)->0;
    let raw = spec_reference_locs(uri, li, idx, occ, include_declaration);
    let sorted = spec_sort_loc(raw);
    lemma_sort_loc_sorted(raw);
    lemma_dedup_loc_sorted(sorted);
    assert forall|x: LocView|
        #[trigger] spec_find_references(uri, li, position, idx, include_declaration).contains(x)
            <==> raw.contains(x) by {
        assert(sorted.contains(x) <==> sorted.to_multiset().contains(x));
        assert(raw.contains(x) <==> raw.to_multiset().contains(x));
    }
}

/// Deduplication leaves a list without equal neighbours unchanged.
proof fn lemma_dedup_loc_identity(s: Seq<LocView>)
    requires
        forall|i: int| 0 < i < s.len() ==> s[i - 1] != #[trigger] s[i],
    ensures
        spec_dedup_loc(s) == s,
    decreases s.len(),
{
    if s.len() > 1 {
        assert(s[s.len() - 2] != s.last());
        assert(forall|i: int|
            0 < i < s.drop_last().len() ==> s.drop_last()[i - 1] != #[trigger] s.drop_last()[i])
            by {
            assert(forall|i: int|
                0 <= i < s.drop_last().len() ==> s.drop_last()[i] == #[trigger] s[i]);
        }
        lemma_dedup_loc_identity(s.drop_last());
        assert(spec_dedup_loc(s) =~= s);
    }
}

/// Reference count: when the raw reference locations (with the
/// requested declaration) are pairwise distinct, find-references
/// answers exactly all of them: one location per reference, plus one
/// for the declaration when requested and recorded.
pub proof fn lemma_find_references_count(
    uri: Seq<char>,
    li: LineIndex,
    position: Position,
    idx: SemanticIndex,
    include_declaration: bool,
)
    requires
        li.spec_offset_of(position) is Some,
        spec_symbol_at_from(
            idx.occurrences.deep_view(),
            li.spec_offset_of(position)->0 as int,
            0,
        ) is Some,
        ({
            let occ = spec_symbol_at_from(
                idx.occurrences.deep_view(),
                li.spec_offset_of(position)->0 as int,
                0,
            )->0;
            spec_reference_locs(uri, li, idx, occ, include_declaration).no_duplicates()
        }),
    ensures
        ({
            let occ = spec_symbol_at_from(
                idx.occurrences.deep_view(),
                li.spec_offset_of(position)->0 as int,
                0,
            )->0;
            spec_find_references(uri, li, position, idx, include_declaration).len()
                == spec_reference_locs(uri, li, idx, occ, include_declaration).len()
        }),
{
    let off = li.spec_offset_of(position)->0;
    let occ = spec_symbol_at_from(idx.occurrences.deep_view(), off as int, 0)->0;
    let raw = spec_reference_locs(uri, li, idx, occ, include_declaration);
    let sorted = spec_sort_loc(raw);
    lemma_sort_loc_sorted(raw);
    raw.lemma_multiset_has_no_duplicates();
    sorted.lemma_multiset_has_no_duplicates_conv();
    raw.to_multiset_ensures();
    sorted.to_multiset_ensures();
    assert(sorted.len() == raw.len());
    assert(forall|i: int| 0 < i < sorted.len() ==> sorted[i - 1] != #[trigger] sorted[i]);
    lemma_dedup_loc_identity(sorted);
}
} // verus!
