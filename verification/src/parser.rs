//! The schema resolution and type-normalization engine.
//!
//! A [`Parser`] owns the loaded schema documents and the registry of all
//! struct and enum definitions produced so far. Normalization is a
//! depth-first recursive descent; a defensive recursion budget bounds it,
//! so a `$ref` cycle ends in [`CompileError::RecursionLimit`] rather than
//! running forever.
//!
//! Every step of the engine is pinned to a side-effect-free model
//! ([`spec_parse_item`] and friends), so two runs over the same documents
//! produce the same definitions and the same handles.

use vstd::prelude::*;
use crate::json::{Json, json_get, json_get_str, parse_json, spec_json_doc};
use crate::schema::{
    Array, CompileError, CompileFailure, EnumDefView, EnumDefinition, EnumKind, EnumOption,
    EnumValue, FailView, IntRange, Item, Property, StructDefView, StructDefinition,
};
use crate::text::{int_of_num_text, parse_i64, spec_str_lt, str_eq, str_lt};

verus! {

/// The registry part of a parser, as the model sees it.
pub ghost struct ParserModel {
    pub structs: Seq<StructDefView>,
    pub enums: Seq<EnumDefView>,
}

/// The loaded documents, as the model sees them: path and text pairs.
pub open spec fn files_view(files: Seq<(String, String)>) -> Seq<(Seq<char>, Seq<char>)> {
    files.map_values(|f: (String, String)| (f.0@, f.1@))
}

/// The text stored under `path`, if any: the first entry wins.
pub open spec fn lookup_file(files: Seq<(Seq<char>, Seq<char>)>, path: Seq<char>) -> Option<
    Seq<char>,
>
    decreases files.len(),
{
    if files.len() == 0 {
        None
    } else if files[0].0 == path {
        Some(files[0].1)
    } else {
        lookup_file(files.drop_first(), path)
    }
}

/// A failure as the model builds it: what went wrong, at which document.
pub open spec fn fail_at(error: CompileError, path: Seq<char>) -> FailView {
    FailView { error, path }
}

/// What resolving a path yields: the parsed document, or the distinct
/// failure — carrying that path — for a missing file or unparsable text.
pub open spec fn spec_resolve(files: Seq<(Seq<char>, Seq<char>)>, path: Seq<char>) -> Result<
    Json,
    FailView,
> {
    match lookup_file(files, path) {
        None => Err(fail_at(CompileError::NotFound, path)),
        Some(text) => match spec_json_doc(text) {
            None => Err(fail_at(CompileError::ParseError, path)),
            Some(j) => Ok(j),
        },
    }
}

/// Cache semantics: resolving the same path against the same documents
/// always yields a value with identical content — re-reading never
/// reparses divergently, because the result is a function of the stored
/// text alone.
pub proof fn lemma_resolve_deterministic(
    files1: Seq<(Seq<char>, Seq<char>)>,
    files2: Seq<(Seq<char>, Seq<char>)>,
    path1: Seq<char>,
    path2: Seq<char>,
)
    requires
        files1 == files2,
        path1 == path2,
    ensures
        spec_resolve(files1, path1) == spec_resolve(files2, path2),
{
}

/// How an optional integer keyword reads: absent, present with an integer
/// value, or present but not an integer.
pub open spec fn spec_opt_int(j: Json, key: Seq<char>) -> Result<Option<i64>, CompileError> {
    match json_get(j, key) {
        None => Ok(None),
        Some(Json::Num(t)) => match int_of_num_text(t@) {
            Some(n) => Ok(Some(n)),
            None => Err(CompileError::Malformed),
        },
        Some(_) => Err(CompileError::Malformed),
    }
}

/// Whether some string in `l` holds the characters `s`.
pub open spec fn contains_str(l: Seq<String>, s: Seq<char>) -> bool {
    exists|i: int| 0 <= i < l.len() && l[i]@ == s
}

/// Whether `props` already holds a property named `name`: an earlier
/// writer of the name keeps it.
pub open spec fn prop_name_taken(props: Seq<Property>, name: Seq<char>) -> bool {
    exists|i: int| 0 <= i < props.len() && props[i].title@ == name
}

/// The strings of a JSON array; anything but an array of strings reads
/// as malformed.
pub open spec fn spec_str_list(items: Seq<Json>) -> Result<Seq<String>, CompileError>
    decreases items.len(),
{
    if items.len() == 0 {
        Ok(Seq::empty())
    } else {
        match items[0] {
            Json::Str(s) => match spec_str_list(items.drop_first()) {
                Ok(rest) => Ok(seq![s] + rest),
                Err(e) => Err(e),
            },
            _ => Err(CompileError::Malformed),
        }
    }
}

/// The schema's `required` list: absent reads as empty; anything but an
/// array of strings reads as malformed.
pub open spec fn spec_required(j: Json) -> Result<Seq<String>, CompileError> {
    match json_get(j, "required"@) {
        None => Ok(Seq::empty()),
        Some(Json::Arr(items)) => spec_str_list(items@),
        Some(_) => Err(CompileError::Malformed),
    }
}

/// The schema's own `properties` entries: absent reads as empty; anything
/// but an object reads as malformed.
pub open spec fn spec_props_entries(j: Json) -> Result<Seq<(String, Json)>, CompileError> {
    match json_get(j, "properties"@) {
        None => Ok(Seq::empty()),
        Some(Json::Obj(entries)) => Ok(entries@),
        Some(_) => Err(CompileError::Malformed),
    }
}

/// Where index `i` lands in an index list already sorted by entry key:
/// before the first entry whose key orders strictly after `i`'s, and
/// after any entry with an equal key.
pub open spec fn spec_insert_idx(
    sorted: Seq<usize>,
    entries: Seq<(String, Json)>,
    i: usize,
) -> Seq<usize>
    decreases sorted.len(),
{
    if sorted.len() == 0 {
        seq![i]
    } else if spec_str_lt(entries[i as int].0@, entries[sorted[0] as int].0@) {
        seq![i] + sorted
    } else {
        seq![sorted[0]] + spec_insert_idx(sorted.drop_first(), entries, i)
    }
}

/// The first `k` entry indices, sorted by key (an insertion sort, stable
/// for equal keys).
pub open spec fn spec_sorted_order_upto(entries: Seq<(String, Json)>, k: nat) -> Seq<usize>
    decreases k,
{
    if k == 0 {
        Seq::empty()
    } else {
        spec_insert_idx(
            spec_sorted_order_upto(entries, (k - 1) as nat),
            entries,
            (k - 1) as usize,
        )
    }
}

/// The order in which an object's properties are walked: indices of all
/// entries, sorted by property name so output is deterministic.
pub open spec fn spec_sorted_order(entries: Seq<(String, Json)>) -> Seq<usize> {
    spec_sorted_order_upto(entries, entries.len())
}

proof fn lemma_insert_idx_at(sorted: Seq<usize>, entries: Seq<(String, Json)>, i: usize, p: int)
    requires
        0 <= p <= sorted.len(),
        forall|q: int|
            0 <= q < p ==> !spec_str_lt(
                entries[i as int].0@,
                entries[#[trigger] sorted[q] as int].0@,
            ),
        p < sorted.len() ==> spec_str_lt(entries[i as int].0@, entries[sorted[p] as int].0@),
    ensures
        spec_insert_idx(sorted, entries, i) == sorted.insert(p, i),
    decreases sorted.len(),
{
    if sorted.len() == 0 {
        assert(spec_insert_idx(sorted, entries, i) =~= sorted.insert(0, i));
    } else if p == 0 {
        assert(spec_insert_idx(sorted, entries, i) =~= sorted.insert(0, i));
    } else {
        lemma_insert_idx_at(sorted.drop_first(), entries, i, p - 1);
        assert(seq![sorted[0]] + sorted.drop_first().insert(p - 1, i) =~= sorted.insert(p, i));
    }
}

/// No string orders strictly before itself.
proof fn lemma_str_lt_irrefl(a: Seq<char>)
    ensures
        !spec_str_lt(a, a),
    decreases a.len(),
{
    if a.len() > 0 {
        lemma_str_lt_irrefl(a.drop_first());
    }
}

/// The lexicographic order is transitive.
proof fn lemma_str_lt_trans(a: Seq<char>, b: Seq<char>, c: Seq<char>)
    requires
        spec_str_lt(a, b),
        spec_str_lt(b, c),
    ensures
        spec_str_lt(a, c),
    decreases a.len(),
{
    if b.len() > 0 && c.len() > 0 && a.len() > 0 {
        if (a[0] as u32) == (b[0] as u32) && (b[0] as u32) == (c[0] as u32) {
            lemma_str_lt_trans(a.drop_first(), b.drop_first(), c.drop_first());
        }
    }
}

/// The walking order visits entry names in ascending lexicographic
/// order: no name orders strictly before an earlier one.
pub open spec fn keys_ascending(order: Seq<usize>, entries: Seq<(String, Json)>) -> bool {
    forall|a: int, b: int|
        0 <= a < b < order.len() ==> !spec_str_lt(
            entries[#[trigger] order[b] as int].0@,
            entries[#[trigger] order[a] as int].0@,
        )
}

proof fn lemma_insert_idx_ascending(sorted: Seq<usize>, entries: Seq<(String, Json)>, i: usize)
    requires
        keys_ascending(sorted, entries),
    ensures
        spec_insert_idx(sorted, entries, i).len() == sorted.len() + 1,
        keys_ascending(spec_insert_idx(sorted, entries, i), entries),
        forall|q: int|
            0 <= q < spec_insert_idx(sorted, entries, i).len() ==> (#[trigger] spec_insert_idx(
                sorted,
                entries,
                i,
            )[q] == i || sorted.contains(spec_insert_idx(sorted, entries, i)[q])),
    decreases sorted.len(),
{
    let r = spec_insert_idx(sorted, entries, i);
    if sorted.len() == 0 {
        assert(r =~= seq![i]);
    } else if spec_str_lt(entries[i as int].0@, entries[sorted[0] as int].0@) {
        assert(r =~= seq![i] + sorted);
        assert forall|a: int, b: int| 0 <= a < b < r.len() implies !spec_str_lt(
            entries[#[trigger] r[b] as int].0@,
            entries[#[trigger] r[a] as int].0@,
        ) by {
            if a == 0 {
                assert(r[b] == sorted[b - 1]);
                if spec_str_lt(entries[r[b] as int].0@, entries[i as int].0@) {
                    lemma_str_lt_trans(
                        entries[r[b] as int].0@,
                        entries[i as int].0@,
                        entries[sorted[0] as int].0@,
                    );
                    if b == 1 {
                        lemma_str_lt_irrefl(entries[sorted[0] as int].0@);
                    } else {
                        assert(!spec_str_lt(
                            entries[sorted[b - 1] as int].0@,
                            entries[sorted[0] as int].0@,
                        ));
                    }
                    assert(false);
                }
            } else {
                assert(r[a] == sorted[a - 1]);
                assert(r[b] == sorted[b - 1]);
            }
        }
        assert forall|q: int| 0 <= q < r.len() implies (#[trigger] r[q] == i || sorted.contains(
            r[q],
        )) by {
            if q > 0 {
                assert(sorted[q - 1] == r[q]);
            }
        }
    } else {
        let rest = sorted.drop_first();
        assert forall|a: int, b: int| 0 <= a < b < rest.len() implies !spec_str_lt(
            entries[#[trigger] rest[b] as int].0@,
            entries[#[trigger] rest[a] as int].0@,
        ) by {
            assert(rest[a] == sorted[a + 1]);
            assert(rest[b] == sorted[b + 1]);
        }
        lemma_insert_idx_ascending(rest, entries, i);
        let inner = spec_insert_idx(rest, entries, i);
        assert(r =~= seq![sorted[0]] + inner);
        assert forall|a: int, b: int| 0 <= a < b < r.len() implies !spec_str_lt(
            entries[#[trigger] r[b] as int].0@,
            entries[#[trigger] r[a] as int].0@,
        ) by {
            if a == 0 {
                assert(r[b] == inner[b - 1]);
                let e = inner[b - 1];
                if e == i {
                    assert(!spec_str_lt(entries[i as int].0@, entries[sorted[0] as int].0@));
                } else {
                    assert(rest.contains(e));
                    let p = choose|p: int| 0 <= p < rest.len() && rest[p] == e;
                    assert(sorted[p + 1] == e);
                    assert(!spec_str_lt(
                        entries[sorted[p + 1] as int].0@,
                        entries[sorted[0] as int].0@,
                    ));
                }
            } else {
                assert(r[a] == inner[a - 1]);
                assert(r[b] == inner[b - 1]);
            }
        }
        assert forall|q: int| 0 <= q < r.len() implies (#[trigger] r[q] == i || sorted.contains(
            r[q],
        )) by {
            if q == 0 {
                assert(sorted[0] == r[0]);
            } else {
                assert(r[q] == inner[q - 1]);
                if inner[q - 1] != i {
                    assert(rest.contains(inner[q - 1]));
                    let p = choose|p: int| 0 <= p < rest.len() && rest[p] == inner[q - 1];
                    assert(sorted[p + 1] == inner[q - 1]);
                }
            }
        }
    }
}

proof fn lemma_sorted_order_upto_ascending(entries: Seq<(String, Json)>, k: nat)
    requires
        k <= entries.len(),
        entries.len() <= usize::MAX,
    ensures
        spec_sorted_order_upto(entries, k).len() == k,
        keys_ascending(spec_sorted_order_upto(entries, k), entries),
        forall|q: int|
            0 <= q < k ==> (#[trigger] spec_sorted_order_upto(entries, k)[q] as int) < k,
    decreases k,
{
    if k > 0 {
        let prev = spec_sorted_order_upto(entries, (k - 1) as nat);
        lemma_sorted_order_upto_ascending(entries, (k - 1) as nat);
        lemma_insert_idx_ascending(prev, entries, (k - 1) as usize);
        let r = spec_sorted_order_upto(entries, k);
        assert forall|q: int| 0 <= q < k implies (#[trigger] r[q] as int) < k by {
            if r[q] == (k - 1) as usize {
            } else {
                assert(prev.contains(r[q]));
                let p = choose|p: int| 0 <= p < prev.len() && prev[p] == r[q];
                assert((prev[p] as int) < k - 1);
            }
        }
    }
}

/// Name-sorted iteration: the order in which an object's properties are
/// walked visits every entry exactly once, in ascending lexicographic
/// order of property name, whatever order the document's keys stand in.
/// This is the stated basis of byte-identical output. Entries with equal
/// names keep their document order: the sort is stable by construction.
pub proof fn lemma_sorted_order_ascending(entries: Seq<(String, Json)>)
    requires
        entries.len() <= usize::MAX,
    ensures
        spec_sorted_order(entries).len() == entries.len(),
        forall|q: int|
            0 <= q < entries.len() ==> (#[trigger] spec_sorted_order(entries)[q] as int)
                < entries.len(),
        keys_ascending(spec_sorted_order(entries), entries),
{
    lemma_sorted_order_upto_ascending(entries, entries.len());
}

/// Two strings always compare: one orders strictly before the other, or
/// they are equal.
proof fn lemma_str_lt_total(a: Seq<char>, b: Seq<char>)
    ensures
        spec_str_lt(a, b) || spec_str_lt(b, a) || a == b,
    decreases a.len(),
{
    if a.len() == 0 && b.len() == 0 {
        assert(a =~= b);
    } else if a.len() > 0 && b.len() > 0 {
        if (a[0] as u32) == (b[0] as u32) {
            vstd::utf8::char_u32_cast(a[0], a[0] as u32);
            vstd::utf8::char_u32_cast(b[0], b[0] as u32);
            assert(a[0] == b[0]);
            lemma_str_lt_total(a.drop_first(), b.drop_first());
            if a.drop_first() == b.drop_first() {
                assert(a.drop_first().len() == a.len() - 1);
                assert(b.drop_first().len() == b.len() - 1);
                assert(a.len() == b.len());
                assert forall|i: int| 0 <= i < a.len() implies a[i] == b[i] by {
                    if i > 0 {
                        assert(a.drop_first()[i - 1] == b.drop_first()[i - 1]);
                        assert(a[i] == a.drop_first()[i - 1]);
                        assert(b[i] == b.drop_first()[i - 1]);
                    }
                }
                assert(a =~= b);
            }
        }
    }
}

/// The complement of the order is transitive: a string that does not
/// order after `b`, where `b` does not order after `a`, does not order
/// after `a` either.
proof fn lemma_str_le_trans(a: Seq<char>, b: Seq<char>, c: Seq<char>)
    requires
        !spec_str_lt(b, a),
        !spec_str_lt(c, b),
    ensures
        !spec_str_lt(c, a),
{
    if spec_str_lt(c, a) {
        lemma_str_lt_total(a, b);
        if spec_str_lt(a, b) {
            lemma_str_lt_trans(c, a, b);
        }
        assert(false);
    }
}

/// The titles of `props` from position `from` on never descend.
pub open spec fn titles_ascending_from(props: Seq<Property>, from: int) -> bool {
    forall|a: int, b: int|
        from <= a < b < props.len() ==> !spec_str_lt(
            (#[trigger] props[b]).title@,
            (#[trigger] props[a]).title@,
        )
}

/// The titles of `props` from position `from` on never order before
/// `key`.
pub open spec fn titles_at_least(props: Seq<Property>, from: int, key: Seq<char>) -> bool {
    forall|a: int| from <= a < props.len() ==> !spec_str_lt((#[trigger] props[a]).title@, key)
}

proof fn lemma_parse_props_ascending(
    files: Seq<(Seq<char>, Seq<char>)>,
    entries: Seq<(String, Json)>,
    order: Seq<usize>,
    req: Seq<String>,
    acc: Seq<Property>,
    doc: Seq<char>,
    m: ParserModel,
    depth: nat,
)
    requires
        keys_ascending(order, entries),
        forall|q: int| 0 <= q < order.len() ==> (#[trigger] order[q] as int) < entries.len(),
    ensures
        ({
            let r = spec_parse_props(files, entries, order, req, acc, doc, m, depth);
            r.0 matches Ok(props) ==> {
                &&& props.len() >= acc.len()
                &&& (forall|q: int| 0 <= q < acc.len() ==> #[trigger] props[q] == acc[q])
                &&& titles_ascending_from(props, acc.len() as int)
                &&& (order.len() > 0 ==> titles_at_least(
                    props,
                    acc.len() as int,
                    entries[order[0] as int].0@,
                ))
            }
        }),
    decreases order.len(), 1nat,
{
    if order.len() == 0 {
    } else if order[0] as int >= entries.len() {
    } else {
        let key0 = entries[order[0] as int].0@;
        let order2 = order.drop_first();
        assert forall|q: int| 0 <= q < order2.len() implies (#[trigger] order2[q] as int)
            < entries.len() by {
            assert(order2[q] == order[q + 1]);
        }
        assert forall|a: int, b: int| 0 <= a < b < order2.len() implies !spec_str_lt(
            entries[#[trigger] order2[b] as int].0@,
            entries[#[trigger] order2[a] as int].0@,
        ) by {
            assert(order2[a] == order[a + 1]);
            assert(order2[b] == order[b + 1]);
        }
        let name = entries[order[0] as int].0;
        let v = entries[order[0] as int].1;
        if prop_name_taken(acc, name@) {
            lemma_parse_props_ascending(files, entries, order2, req, acc, doc, m, depth);
            let rr = spec_parse_props(files, entries, order2, req, acc, doc, m, depth);
            if rr.0 is Ok {
                let props = rr.0->Ok_0;
                if order2.len() > 0 {
                    assert(order2[0] == order[1]);
                    assert(!spec_str_lt(entries[order[1] as int].0@, key0));
                    assert forall|a: int| acc.len() <= a < props.len() implies !spec_str_lt(
                        (#[trigger] props[a]).title@,
                        key0,
                    ) by {
                        assert(!spec_str_lt(props[a].title@, entries[order2[0] as int].0@));
                        lemma_str_le_trans(key0, entries[order[1] as int].0@, props[a].title@);
                    }
                    assert(titles_at_least(props, acc.len() as int, key0));
                } else {
                    assert(props == acc);
                }
            }
        } else if name@ == "extensions"@ {
            let p = Property {
                title: name,
                description: None,
                item: Item::Extension,
                required: contains_str(req, name@),
            };
            lemma_parse_props_push(files, entries, order, req, acc, p, doc, m, depth);
        } else {
            let pres = spec_parse_item(files, v, doc, m, depth);
            if pres.0 is Ok {
                let p = Property {
                    title: name,
                    description: json_get_str(v, "description"@),
                    item: pres.0->Ok_0,
                    required: contains_str(req, name@),
                };
                lemma_parse_props_push(files, entries, order, req, acc, p, doc, pres.1, depth);
            }
        }
    }
}

/// One appended property keeps the walk ascending: pushing a property
/// whose title is the head key, then walking the remaining order.
proof fn lemma_parse_props_push(
    files: Seq<(Seq<char>, Seq<char>)>,
    entries: Seq<(String, Json)>,
    order: Seq<usize>,
    req: Seq<String>,
    acc: Seq<Property>,
    p: Property,
    doc: Seq<char>,
    m_after: ParserModel,
    depth: nat,
)
    requires
        order.len() > 0,
        keys_ascending(order, entries),
        forall|q: int| 0 <= q < order.len() ==> (#[trigger] order[q] as int) < entries.len(),
        p.title@ == entries[order[0] as int].0@,
    ensures
        ({
            let rr = spec_parse_props(
                files,
                entries,
                order.drop_first(),
                req,
                acc.push(p),
                doc,
                m_after,
                depth,
            );
            rr.0 matches Ok(props) ==> {
                &&& props.len() >= acc.len()
                &&& (forall|q: int| 0 <= q < acc.len() ==> #[trigger] props[q] == acc[q])
                &&& titles_ascending_from(props, acc.len() as int)
                &&& titles_at_least(props, acc.len() as int, entries[order[0] as int].0@)
            }
        }),
    decreases order.len(), 0nat,
{
    let key0 = entries[order[0] as int].0@;
    let order2 = order.drop_first();
    let acc2 = acc.push(p);
    assert forall|q: int| 0 <= q < order2.len() implies (#[trigger] order2[q] as int)
        < entries.len() by {
        assert(order2[q] == order[q + 1]);
    }
    assert forall|a: int, b: int| 0 <= a < b < order2.len() implies !spec_str_lt(
        entries[#[trigger] order2[b] as int].0@,
        entries[#[trigger] order2[a] as int].0@,
    ) by {
        assert(order2[a] == order[a + 1]);
        assert(order2[b] == order[b + 1]);
    }
    lemma_parse_props_ascending(files, entries, order2, req, acc2, doc, m_after, depth);
    let rr = spec_parse_props(files, entries, order2, req, acc2, doc, m_after, depth);
    if rr.0 is Ok {
        let props = rr.0->Ok_0;
        assert(props[acc.len() as int] == acc2[acc.len() as int]);
        assert(props[acc.len() as int] == p);
        assert forall|q: int| 0 <= q < acc.len() implies #[trigger] props[q] == acc[q] by {
            assert(props[q] == acc2[q]);
        }
        assert forall|a: int| acc.len() + 1 <= a < props.len() implies !spec_str_lt(
            (#[trigger] props[a]).title@,
            key0,
        ) by {
            if order2.len() == 0 {
                assert(props == acc2);
                assert(false);
            } else {
                assert(order2[0] == order[1]);
                assert(!spec_str_lt(entries[order[1] as int].0@, key0));
                assert(!spec_str_lt(props[a].title@, entries[order2[0] as int].0@));
                lemma_str_le_trans(key0, entries[order[1] as int].0@, props[a].title@);
            }
        }
        assert forall|a: int, b: int| acc.len() <= a < b < props.len() implies !spec_str_lt(
            (#[trigger] props[b]).title@,
            (#[trigger] props[a]).title@,
        ) by {
            if a == acc.len() {
                assert(props[a] == p);
                assert(!spec_str_lt(props[b].title@, key0));
            }
        }
        assert forall|a: int| acc.len() <= a < props.len() implies !spec_str_lt(
            (#[trigger] props[a]).title@,
            key0,
        ) by {
            if a == acc.len() {
                lemma_str_lt_irrefl(key0);
            }
        }
        assert(titles_ascending_from(props, acc.len() as int));
        assert(titles_at_least(props, acc.len() as int, key0));
    }
}

/// Name-sorted iteration, at the property list itself: walking a schema
/// object's own `properties` extends the list in place and appends
/// properties whose titles never descend — the walk follows the
/// ascending order, whatever order the document's keys stand in, which
/// is the stated basis of byte-identical output.
pub proof fn lemma_parse_properties_sorted(
    files: Seq<(Seq<char>, Seq<char>)>,
    j: Json,
    req: Seq<String>,
    acc: Seq<Property>,
    doc: Seq<char>,
    m: ParserModel,
    depth: nat,
)
    requires
        spec_props_entries(j) matches Ok(pe) ==> pe.len() <= usize::MAX,
    ensures
        ({
            let r = spec_parse_properties(files, j, req, acc, doc, m, depth);
            r.0 matches Ok(props) ==> {
                &&& props.len() >= acc.len()
                &&& (forall|q: int| 0 <= q < acc.len() ==> #[trigger] props[q] == acc[q])
                &&& titles_ascending_from(props, acc.len() as int)
            }
        }),
{
    match spec_props_entries(j) {
        Err(_) => {},
        Ok(pe) => {
            lemma_sorted_order_ascending(pe);
            lemma_parse_props_ascending(
                files,
                pe,
                spec_sorted_order(pe),
                req,
                acc,
                doc,
                m,
                depth,
            );
        },
    }
}

/// The handle under which a title is registered, if any.
pub open spec fn spec_lookup_from(
    structs: Seq<StructDefView>,
    title: Seq<char>,
    i: int,
) -> Option<usize>
    decreases structs.len() - i,
{
    if i < 0 || i >= structs.len() {
        None
    } else if structs[i].title@ == title {
        Some(i as usize)
    } else {
        spec_lookup_from(structs, title, i + 1)
    }
}

/// The handle under which a title is registered, if any.
pub open spec fn spec_lookup(structs: Seq<StructDefView>, title: Seq<char>) -> Option<usize> {
    spec_lookup_from(structs, title, 0)
}

/// Registration: the first call for a title stores the definition under a
/// fresh handle; a later call for the same title returns the stored handle
/// unchanged and discards the new definition.
pub open spec fn spec_new_struct(m: ParserModel, def: StructDefView) -> (usize, ParserModel) {
    match spec_lookup(m.structs, def.title@) {
        Some(h) => (h, m),
        None => (
            m.structs.len() as usize,
            ParserModel { structs: m.structs.push(def), enums: m.enums },
        ),
    }
}

/// The scalar kind of an enumeration, read from its last branch.
pub open spec fn spec_enum_kind(branches: Seq<Json>) -> Result<EnumKind, CompileError> {
    if branches.len() == 0 {
        Err(CompileError::MissingEnumBranchType)
    } else {
        match json_get(branches.last(), "type"@) {
            Some(Json::Str(t)) => if t@ == "integer"@ {
                Ok(EnumKind::Integer)
            } else if t@ == "number"@ {
                Ok(EnumKind::Number)
            } else if t@ == "string"@ {
                Ok(EnumKind::String)
            } else {
                Err(CompileError::MissingEnumBranchType)
            },
            _ => Err(CompileError::MissingEnumBranchType),
        }
    }
}

/// The option one `anyOf` branch contributes: its `enum` list's first
/// constant, of the enumeration's kind, named by the branch's
/// `description`. A branch without such a constant contributes nothing.
pub open spec fn spec_enum_option(b: Json, kind: EnumKind) -> Option<EnumOption> {
    match json_get(b, "enum"@) {
        Some(Json::Arr(consts)) => if consts@.len() == 0 {
            None
        } else {
            let desc = json_get_str(b, "description"@);
            let val = match kind {
                EnumKind::Integer => match consts@[0] {
                    Json::Num(t) => match int_of_num_text(t@) {
                        Some(n) => Some(EnumValue::Integer(n)),
                        None => None,
                    },
                    _ => None,
                },
                EnumKind::Number => match consts@[0] {
                    Json::Num(t) => Some(EnumValue::Number(t)),
                    _ => None,
                },
                EnumKind::String => match consts@[0] {
                    Json::Str(s) => Some(EnumValue::String(s)),
                    _ => None,
                },
            };
            match val {
                Some(v) => Some(EnumOption { name: desc, description: desc, value: v }),
                None => None,
            }
        },
        _ => None,
    }
}

/// The options of all branches, in branch order.
pub open spec fn spec_enum_options(branches: Seq<Json>, kind: EnumKind) -> Seq<EnumOption>
    decreases branches.len(),
{
    if branches.len() == 0 {
        Seq::empty()
    } else {
        let rest = spec_enum_options(branches.drop_first(), kind);
        match spec_enum_option(branches[0], kind) {
            Some(o) => seq![o] + rest,
            None => rest,
        }
    }
}

/// The enumeration a type-less `anyOf` schema denotes.
pub open spec fn spec_parse_anyof(j: Json, branches: Seq<Json>) -> Result<
    EnumDefView,
    CompileError,
> {
    match spec_enum_kind(branches) {
        Err(e) => Err(e),
        Ok(kind) => Ok(
            EnumDefView {
                title: json_get_str(j, "title"@),
                description: json_get_str(j, "description"@),
                options: spec_enum_options(branches, kind),
            },
        ),
    }
}

/// What normalizing one schema object yields, and the registry state it
/// leaves behind. `doc` is the path of the document the object stands in,
/// which every failure reports; the `depth` budget bounds the recursion.
pub open spec fn spec_parse_item(
    files: Seq<(Seq<char>, Seq<char>)>,
    j: Json,
    doc: Seq<char>,
    m: ParserModel,
    depth: nat,
) -> (Result<Item, FailView>, ParserModel)
    decreases depth, 1nat, 0nat,
{
    if depth == 0 {
        (Err(fail_at(CompileError::RecursionLimit, doc)), m)
    } else if !(j is Obj) {
        (Err(fail_at(CompileError::Malformed, doc)), m)
    } else if json_get(j, "$ref"@) is Some {
        match json_get(j, "$ref"@) {
            Some(Json::Str(path)) => match spec_resolve(files, path@) {
                Ok(target) => spec_parse_item(files, target, path@, m, (depth - 1) as nat),
                Err(f) => (Err(f), m),
            },
            _ => (Err(fail_at(CompileError::Malformed, doc)), m),
        }
    } else {
        match json_get(j, "type"@) {
            Some(Json::Str(t)) => if t@ == "array"@ {
                match json_get(j, "items"@) {
                    None => (Err(fail_at(CompileError::MissingItems, doc)), m),
                    Some(items_j) => match spec_parse_item(
                        files,
                        items_j,
                        doc,
                        m,
                        (depth - 1) as nat,
                    ) {
                        (Err(f), m1) => (Err(f), m1),
                        (Ok(elem), m1) => match spec_opt_int(j, "minItems"@) {
                            Err(e) => (Err(fail_at(e, doc)), m1),
                            Ok(mi) => match spec_opt_int(j, "maxItems"@) {
                                Err(e) => (Err(fail_at(e, doc)), m1),
                                Ok(ma) => (
                                    Ok(
                                        Item::Array(
                                            Array {
                                                item_type: Box::new(elem),
                                                min_items: match mi {
                                                    Some(n) => n,
                                                    None => 0,
                                                },
                                                max_items: ma,
                                            },
                                        ),
                                    ),
                                    m1,
                                ),
                            },
                        },
                    },
                }
            } else if t@ == "object"@ {
                spec_parse_object(files, j, doc, m, depth)
            } else if t@ == "integer"@ {
                match spec_opt_int(j, "minimum"@) {
                    Err(e) => (Err(fail_at(e, doc)), m),
                    Ok(mi) => match spec_opt_int(j, "maximum"@) {
                        Err(e) => (Err(fail_at(e, doc)), m),
                        Ok(ma) => (
                            Ok(
                                Item::Integer(
                                    IntRange {
                                        minimum: match mi {
                                            Some(n) => n,
                                            None => i64::MIN,
                                        },
                                        maximum: match ma {
                                            Some(n) => n,
                                            None => i64::MAX,
                                        },
                                    },
                                ),
                            ),
                            m,
                        ),
                    },
                }
            } else if t@ == "number"@ {
                (Ok(Item::Number), m)
            } else if t@ == "string"@ {
                (Ok(Item::String), m)
            } else if t@ == "boolean"@ {
                (Ok(Item::Boolean), m)
            } else {
                (Ok(Item::Unknown), m)
            },
            Some(_) => (Err(fail_at(CompileError::Malformed, doc)), m),
            None => match json_get(j, "allOf"@) {
                Some(Json::Arr(branches)) => if branches@.len() == 0 {
                    (Err(fail_at(CompileError::Malformed, doc)), m)
                } else {
                    spec_parse_item(files, branches@[0], doc, m, (depth - 1) as nat)
                },
                Some(_) => (Err(fail_at(CompileError::Malformed, doc)), m),
                None => match json_get(j, "anyOf"@) {
                    Some(Json::Arr(branches)) => match spec_parse_anyof(j, branches@) {
                        Err(e) => (Err(fail_at(e, doc)), m),
                        Ok(def) => (
                            Ok(Item::Enum(m.enums.len() as usize)),
                            ParserModel { structs: m.structs, enums: m.enums.push(def) },
                        ),
                    },
                    Some(_) => (Err(fail_at(CompileError::Malformed, doc)), m),
                    None => (Ok(Item::Unknown), m),
                },
            },
        }
    }
}

/// What normalizing an object schema yields: the already-registered struct
/// for its title, or a fresh definition built from its sorted properties
/// and its `allOf`-merged extensions.
pub open spec fn spec_parse_object(
    files: Seq<(Seq<char>, Seq<char>)>,
    j: Json,
    doc: Seq<char>,
    m: ParserModel,
    depth: nat,
) -> (Result<Item, FailView>, ParserModel)
    decreases depth, 0nat, 0nat,
{
    match json_get(j, "title"@) {
        Some(Json::Str(title)) => match spec_lookup(m.structs, title@) {
            Some(h) => (Ok(Item::Struct(h)), m),
            None => {
                let desc = json_get_str(j, "description"@);
                if depth == 0 {
                    (Err(fail_at(CompileError::RecursionLimit, doc)), m)
                } else {
                    match spec_required(j) {
                        Err(e) => (Err(fail_at(e, doc)), m),
                        Ok(req) => match spec_parse_properties(
                            files,
                            j,
                            req,
                            Seq::empty(),
                            doc,
                            m,
                            (depth - 1) as nat,
                        ) {
                                (Err(f), m1) => (Err(f), m1),
                                (Ok(props1), m1) => match json_get(j, "allOf"@) {
                                    None => {
                                        let r = spec_new_struct(
                                            m1,
                                            StructDefView {
                                                title: title,
                                                description: desc,
                                                properties: props1,
                                            },
                                        );
                                        (Ok(Item::Struct(r.0)), r.1)
                                    },
                                    Some(Json::Arr(branches)) => match spec_parse_allof(
                                        files,
                                        branches@,
                                        props1,
                                        doc,
                                        m1,
                                        (depth - 1) as nat,
                                    ) {
                                        (Err(f), m2) => (Err(f), m2),
                                        (Ok(props2), m2) => {
                                            let r = spec_new_struct(
                                                m2,
                                                StructDefView {
                                                    title: title,
                                                    description: desc,
                                                    properties: props2,
                                                },
                                            );
                                            (Ok(Item::Struct(r.0)), r.1)
                                        },
                                    },
                                    Some(_) => (Err(fail_at(CompileError::Malformed, doc)), m1),
                                },
                            },
                    }
                }
            },
        },
        _ => (Err(fail_at(CompileError::MissingTitle, doc)), m),
    }
}

/// What walking an object's properties in the given order yields: each
/// property normalized in turn, appended to `acc` unless an earlier writer
/// already holds its name. A property called `extensions` is the open
/// passthrough slot and is not descended into.
pub open spec fn spec_parse_props(
    files: Seq<(Seq<char>, Seq<char>)>,
    entries: Seq<(String, Json)>,
    order: Seq<usize>,
    req: Seq<String>,
    acc: Seq<Property>,
    doc: Seq<char>,
    m: ParserModel,
    depth: nat,
) -> (Result<Seq<Property>, FailView>, ParserModel)
    decreases depth, 2nat, order.len(),
{
    if order.len() == 0 {
        (Ok(acc), m)
    } else if order[0] as int >= entries.len() {
        (Err(fail_at(CompileError::Malformed, doc)), m)
    } else {
        let name = entries[order[0] as int].0;
        let v = entries[order[0] as int].1;
        if prop_name_taken(acc, name@) {
            spec_parse_props(files, entries, order.drop_first(), req, acc, doc, m, depth)
        } else if name@ == "extensions"@ {
            let p = Property {
                title: name,
                description: None,
                item: Item::Extension,
                required: contains_str(req, name@),
            };
            spec_parse_props(files, entries, order.drop_first(), req, acc.push(p), doc, m, depth)
        } else {
            match spec_parse_item(files, v, doc, m, depth) {
                (Err(f), m1) => (Err(f), m1),
                (Ok(item), m1) => {
                    let p = Property {
                        title: name,
                        description: json_get_str(v, "description"@),
                        item: item,
                        required: contains_str(req, name@),
                    };
                    spec_parse_props(
                        files,
                        entries,
                        order.drop_first(),
                        req,
                        acc.push(p),
                        doc,
                        m1,
                        depth,
                    )
                },
            }
        }
    }
}

/// What walking all of a schema object's own `properties` yields: its
/// entries read, ordered by name, and walked into `acc`.
pub open spec fn spec_parse_properties(
    files: Seq<(Seq<char>, Seq<char>)>,
    j: Json,
    req: Seq<String>,
    acc: Seq<Property>,
    doc: Seq<char>,
    m: ParserModel,
    depth: nat,
) -> (Result<Seq<Property>, FailView>, ParserModel)
    decreases depth, 3nat, 0nat,
{
    match spec_props_entries(j) {
        Err(e) => (Err(fail_at(e, doc)), m),
        Ok(pe) => spec_parse_props(files, pe, spec_sorted_order(pe), req, acc, doc, m, depth),
    }
}

/// What merging `allOf` branches yields: each branch resolved (following
/// one `$ref` where it stands for its target), then its properties walked
/// into the same list, earlier writers keeping their names.
pub open spec fn spec_parse_allof(
    files: Seq<(Seq<char>, Seq<char>)>,
    branches: Seq<Json>,
    acc: Seq<Property>,
    doc: Seq<char>,
    m: ParserModel,
    depth: nat,
) -> (Result<Seq<Property>, FailView>, ParserModel)
    decreases depth, 4nat, branches.len(),
{
    if branches.len() == 0 {
        (Ok(acc), m)
    } else {
        let bres: Result<(Json, Seq<char>), FailView> = if json_get(
            branches[0],
            "$ref"@,
        ) is Some {
            match json_get(branches[0], "$ref"@) {
                Some(Json::Str(path)) => match spec_resolve(files, path@) {
                    Ok(d) => Ok((d, path@)),
                    Err(f) => Err(f),
                },
                _ => Err(fail_at(CompileError::Malformed, doc)),
            }
        } else {
            Ok((branches[0], doc))
        };
        match bres {
            Err(f) => (Err(f), m),
            Ok((d, bd)) => if !(d is Obj) {
                (Err(fail_at(CompileError::Malformed, bd)), m)
            } else {
                match spec_required(d) {
                    Err(e) => (Err(fail_at(e, bd)), m),
                    Ok(req) => match spec_parse_properties(files, d, req, acc, bd, m, depth) {
                        (Err(f), m1) => (Err(f), m1),
                        (Ok(acc2), m1) => spec_parse_allof(
                            files,
                            branches.drop_first(),
                            acc2,
                            doc,
                            m1,
                            depth,
                        ),
                    },
                }
            },
        }
    }
}

/// Computes the sorted walking order of an object's entries.
fn sorted_order(entries: &Vec<(String, Json)>) -> (r: Vec<usize>)
    ensures
        r@ == spec_sorted_order(entries@),
{
    let n = entries.len();
    let mut order: Vec<usize> = Vec::new();
    let mut k: usize = 0;
    while k < n
        invariant
            k <= n,
            n == entries@.len(),
            order@ == spec_sorted_order_upto(entries@, k as nat),
            order@.len() == k,
            forall|q: int| 0 <= q < order@.len() ==> #[trigger] order@[q] < n,
        decreases n - k,
    {
        let mut p: usize = 0;
        while p < order.len() && !str_lt(entries[k].0.as_str(), entries[order[p]].0.as_str())
            invariant
                p <= order.len(),
                n == entries@.len(),
                k < n,
                order@.len() == k,
                forall|q: int| 0 <= q < order@.len() ==> #[trigger] order@[q] < n,
                forall|q: int|
                    0 <= q < p ==> !spec_str_lt(
                        entries@[k as int].0@,
                        entries@[#[trigger] order@[q] as int].0@,
                    ),
            decreases order.len() - p,
        {
            p = p + 1;
        }
        proof {
            lemma_insert_idx_at(order@, entries@, k, p as int);
        }
        order.insert(p, k);
        assert forall|q: int| 0 <= q < order@.len() implies #[trigger] order@[q] < n by {
            assert(order@ == spec_sorted_order_upto(entries@, k as nat).insert(p as int, k));
        }
        k = k + 1;
    }
    order
}

/// Reads an optional integer keyword.
fn opt_int(j: &Json, key: &str) -> (r: Result<Option<i64>, CompileError>)
    ensures
        r == spec_opt_int(*j, key@),
{
    match j.get(key) {
        None => Ok(None),
        Some(v) => match v {
            Json::Num(t) => match parse_i64(t.as_str()) {
                Some(n) => Ok(Some(n)),
                None => Err(CompileError::Malformed),
            },
            _ => Err(CompileError::Malformed),
        },
    }
}

/// Reads an optional string keyword; a non-string value reads as absent.
fn get_str_field(j: &Json, key: &str) -> (r: Option<String>)
    ensures
        r == json_get_str(*j, key@),
{
    match j.get(key) {
        Some(v) => match v {
            Json::Str(s) => Some(s.clone()),
            _ => None,
        },
        None => None,
    }
}

/// Collects the strings of a JSON array.
fn str_list(items: &Vec<Json>) -> (r: Result<Vec<String>, CompileError>)
    ensures
        r matches Ok(v) ==> spec_str_list(items@) == Ok::<Seq<String>, CompileError>(v@),
        r matches Err(e) ==> spec_str_list(items@) == Err::<Seq<String>, CompileError>(e),
{
    let n = items.len();
    let mut acc: Vec<String> = Vec::new();
    let mut i: usize = 0;
    assert(items@.skip(0) =~= items@);
    while i < n
        invariant
            i <= n,
            n == items@.len(),
            match spec_str_list(items@.skip(i as int)) {
                Ok(rest) => spec_str_list(items@) == Ok::<Seq<String>, CompileError>(acc@ + rest),
                Err(e) => spec_str_list(items@) is Err,
            },
            spec_str_list(items@) matches Err(e) ==> spec_str_list(items@.skip(i as int)) == Err::<
                Seq<String>,
                CompileError,
            >(e),
        decreases n - i,
    {
        assert(items@.skip(i as int)[0] == items@[i as int]);
        assert(items@.skip(i as int).drop_first() =~= items@.skip(i as int + 1));
        match &items[i] {
            Json::Str(s) => {
                let ghost old_acc = acc@;
                acc.push(s.clone());
                proof {
                    let s0 = items@[i as int]->Str_0;
                    assert(acc@ =~= old_acc + seq![s0]);
                    assert(spec_str_list(items@.skip(i as int)) == (match spec_str_list(
                        items@.skip(i as int + 1),
                    ) {
                        Ok(rest) => Ok::<Seq<String>, CompileError>(seq![s0] + rest),
                        Err(e) => Err::<Seq<String>, CompileError>(e),
                    }));
                    match spec_str_list(items@.skip(i as int + 1)) {
                        Ok(rest) => {
                            assert(old_acc + (seq![s0] + rest) =~= acc@ + rest);
                        },
                        Err(_) => {},
                    }
                }
            },
            _ => {
                return Err(CompileError::Malformed);
            },
        }
        i = i + 1;
    }
    assert(items@.skip(n as int).len() == 0);
    assert(acc@ + Seq::<String>::empty() =~= acc@);
    Ok(acc)
}

/// Reads the schema's `required` list.
fn required_list(j: &Json) -> (r: Result<Vec<String>, CompileError>)
    ensures
        r matches Ok(v) ==> spec_required(*j) == Ok::<Seq<String>, CompileError>(v@),
        r matches Err(e) ==> spec_required(*j) == Err::<Seq<String>, CompileError>(e),
{
    match j.get("required") {
        None => {
            let v: Vec<String> = Vec::new();
            Ok(v)
        },
        Some(val) => match val {
            Json::Arr(items) => str_list(items),
            _ => Err(CompileError::Malformed),
        },
    }
}

/// Whether `l` holds the string `s`.
fn contains_string(l: &Vec<String>, s: &str) -> (r: bool)
    ensures
        r == contains_str(l@, s@),
{
    let n = l.len();
    let mut i: usize = 0;
    while i < n
        invariant
            i <= n,
            n == l@.len(),
            forall|k: int| 0 <= k < i ==> l@[k]@ != s@,
        decreases n - i,
    {
        if str_eq(l[i].as_str(), s) {
            assert(contains_str(l@, s@));
            return true;
        }
        i = i + 1;
    }
    false
}

/// Whether a property named `name` is already in `props`.
fn prop_taken(props: &Vec<Property>, name: &str) -> (r: bool)
    ensures
        r == prop_name_taken(props@, name@),
{
    let n = props.len();
    let mut i: usize = 0;
    while i < n
        invariant
            i <= n,
            n == props@.len(),
            forall|k: int| 0 <= k < i ==> props@[k].title@ != name@,
        decreases n - i,
    {
        if str_eq(props[i].title.as_str(), name) {
            assert(prop_name_taken(props@, name@));
            return true;
        }
        i = i + 1;
    }
    false
}

/// Reads the scalar kind of an enumeration from its last branch.
fn enum_kind(branches: &Vec<Json>) -> (r: Result<EnumKind, CompileError>)
    ensures
        r == spec_enum_kind(branches@),
{
    if branches.len() == 0 {
        return Err(CompileError::MissingEnumBranchType);
    }
    let last = &branches[branches.len() - 1];
    assert(*last == branches@.last());
    match last.get("type") {
        Some(v) => match v {
            Json::Str(t) => {
                if str_eq(t.as_str(), "integer") {
                    Ok(EnumKind::Integer)
                } else if str_eq(t.as_str(), "number") {
                    Ok(EnumKind::Number)
                } else if str_eq(t.as_str(), "string") {
                    Ok(EnumKind::String)
                } else {
                    Err(CompileError::MissingEnumBranchType)
                }
            },
            _ => Err(CompileError::MissingEnumBranchType),
        },
        None => Err(CompileError::MissingEnumBranchType),
    }
}

/// Builds the option one `anyOf` branch contributes, if any.
fn enum_option(b: &Json, kind: EnumKind) -> (r: Option<EnumOption>)
    ensures
        r == spec_enum_option(*b, kind),
{
    let consts = match b.get("enum") {
        Some(v) => match v {
            Json::Arr(consts) => consts,
            _ => {
                return None;
            },
        },
        None => {
            return None;
        },
    };
    if consts.len() == 0 {
        return None;
    }
    let desc = get_str_field(b, "description");
    let val: EnumValue = match kind {
        EnumKind::Integer => match &consts[0] {
            Json::Num(t) => match parse_i64(t.as_str()) {
                Some(n) => EnumValue::Integer(n),
                None => {
                    return None;
                },
            },
            _ => {
                return None;
            },
        },
        EnumKind::Number => match &consts[0] {
            Json::Num(t) => EnumValue::Number(t.clone()),
            _ => {
                return None;
            },
        },
        EnumKind::String => match &consts[0] {
            Json::Str(s) => EnumValue::String(s.clone()),
            _ => {
                return None;
            },
        },
    };
    let (name, description) = match desc {
        Some(d) => {
            let d2 = d.clone();
            (Some(d2), Some(d))
        },
        None => (None, None),
    };
    Some(EnumOption { name, description, value: val })
}

/// Collects the options of all branches, in branch order.
fn enum_options(branches: &Vec<Json>, kind: EnumKind) -> (r: Vec<EnumOption>)
    ensures
        r@ == spec_enum_options(branches@, kind),
{
    let n = branches.len();
    let mut acc: Vec<EnumOption> = Vec::new();
    let mut i: usize = 0;
    assert(branches@.skip(0) =~= branches@);
    while i < n
        invariant
            i <= n,
            n == branches@.len(),
            acc@ + spec_enum_options(branches@.skip(i as int), kind) == spec_enum_options(
                branches@,
                kind,
            ),
        decreases n - i,
    {
        assert(branches@.skip(i as int)[0] == branches@[i as int]);
        assert(branches@.skip(i as int).drop_first() =~= branches@.skip(i as int + 1));
        match enum_option(&branches[i], kind) {
            Some(o) => {
                acc.push(o);
                proof {
                    let rest = spec_enum_options(branches@.skip(i as int + 1), kind);
                    assert(acc@ + rest =~= acc@.drop_last() + (seq![acc@.last()] + rest));
                }
            },
            None => {},
        }
        i = i + 1;
    }
    assert(branches@.skip(n as int).len() == 0);
    assert(acc@ + Seq::<EnumOption>::empty() =~= acc@);
    acc
}

/// Builds the enumeration a type-less `anyOf` schema denotes.
fn parse_anyof(j: &Json, branches: &Vec<Json>) -> (r: Result<EnumDefinition, CompileError>)
    ensures
        r matches Ok(d) ==> spec_parse_anyof(*j, branches@) == Ok::<EnumDefView, CompileError>(d@),
        r matches Err(e) ==> spec_parse_anyof(*j, branches@) == Err::<EnumDefView, CompileError>(e),
{
    let kind = match enum_kind(branches) {
        Ok(k) => k,
        Err(e) => {
            return Err(e);
        },
    };
    let title = get_str_field(j, "title");
    let description = get_str_field(j, "description");
    let options = enum_options(branches, kind);
    Ok(EnumDefinition { title, description, options })
}

/// All registered titles are distinct: at most one definition per title.
pub open spec fn titles_unique(structs: Seq<StructDefView>) -> bool {
    forall|i: int, k: int| 0 <= i < k < structs.len() ==> structs[i].title@ != structs[k].title@
}

/// `m2` extends `m1`: the registry only grows, and a definition, once its
/// handle is issued, never changes.
pub open spec fn model_extends(m1: ParserModel, m2: ParserModel) -> bool {
    &&& m1.structs.len() <= m2.structs.len()
    &&& forall|i: int| 0 <= i < m1.structs.len() ==> #[trigger] m2.structs[i] == m1.structs[i]
    &&& m1.enums.len() <= m2.enums.len()
    &&& forall|i: int| 0 <= i < m1.enums.len() ==> #[trigger] m2.enums[i] == m1.enums[i]
}

proof fn lemma_lookup_from_none(structs: Seq<StructDefView>, title: Seq<char>, i: int)
    requires
        0 <= i,
        spec_lookup_from(structs, title, i) is None,
    ensures
        forall|k: int| i <= k < structs.len() ==> structs[k].title@ != title,
    decreases structs.len() - i,
{
    if i < structs.len() {
        lemma_lookup_from_none(structs, title, i + 1);
    }
}

/// Builds a failure value for the given document path.
fn fail(error: CompileError, path: &str) -> (r: CompileFailure)
    ensures
        r@ == fail_at(error, path@),
{
    CompileFailure { error, path: path.to_owned() }
}

/// The compiler: it owns the loaded schema documents (path and text pairs)
/// and the registry of all struct and enum definitions discovered so far.
pub struct Parser {
    /// The schema documents the compilation may reference, by relative path.
    pub files: Vec<(String, String)>,
    /// All struct definitions, addressed by handle, in discovery order.
    pub structs: Vec<StructDefinition>,
    /// All enum definitions, addressed by handle, in discovery order.
    pub enums: Vec<EnumDefinition>,
}

impl Parser {
    /// The registry as the model sees it.
    pub open spec fn model(&self) -> ParserModel {
        ParserModel { structs: self.structs.deep_view(), enums: self.enums.deep_view() }
    }

    /// The documents as the model sees them.
    pub open spec fn fview(&self) -> Seq<(Seq<char>, Seq<char>)> {
        files_view(self.files@)
    }

    /// A parser over the given documents, with an empty registry.
    pub fn new(files: Vec<(String, String)>) -> (r: Parser)
        ensures
            r.files == files,
            r.model().structs == Seq::<StructDefView>::empty(),
            r.model().enums == Seq::<EnumDefView>::empty(),
            titles_unique(r.model().structs),
    {
        let r = Parser { files, structs: Vec::new(), enums: Vec::new() };
        proof {
            assert(r.model().structs =~= Seq::<StructDefView>::empty());
            assert(r.model().enums =~= Seq::<EnumDefView>::empty());
        }
        r
    }

    /// The handle registered for `title`, if any.
    pub fn lookup(&self, title: &str) -> (r: Option<usize>)
        ensures
            r == spec_lookup(self.model().structs, title@),
    {
        let n = self.structs.len();
        let mut i: usize = 0;
        while i < n
            invariant
                i <= n,
                n == self.structs@.len(),
                n == self.model().structs.len(),
                spec_lookup(self.model().structs, title@) == spec_lookup_from(
                    self.model().structs,
                    title@,
                    i as int,
                ),
            decreases n - i,
        {
            assert(self.model().structs[i as int].title == self.structs@[i as int].title);
            if str_eq(self.structs[i].title.as_str(), title) {
                return Some(i);
            }
            i = i + 1;
        }
        None
    }

    /// Registers a definition under `title`: the first call for a title
    /// stores it and returns a fresh handle; later calls return the
    /// already-stored handle and discard the new definition.
    pub fn new_struct(&mut self, title: String, struct_definition: StructDefinition) -> (r: usize)
        requires
            title@ == struct_definition.title@,
        ensures
            r == spec_new_struct(old(self).model(), struct_definition@).0,
            final(self).model() == spec_new_struct(old(self).model(), struct_definition@).1,
            final(self).files == old(self).files,
            model_extends(old(self).model(), final(self).model()),
            titles_unique(old(self).model().structs) ==> titles_unique(
                final(self).model().structs,
            ),
    {
        match self.lookup(title.as_str()) {
            Some(h) => h,
            None => {
                let ghost old_model = self.model();
                let h = self.structs.len();
                self.structs.push(struct_definition);
                proof {
                    assert(self.model().structs =~= old_model.structs.push(
                        struct_definition@,
                    ));
                    assert(self.model().enums =~= old_model.enums);
                    lemma_lookup_from_none(old_model.structs, struct_definition.title@, 0);
                    if titles_unique(old_model.structs) {
                        assert forall|i: int, k: int|
                            0 <= i < k < self.model().structs.len() implies self.model().structs[i].title@
                            != self.model().structs[k].title@ by {
                            if k < old_model.structs.len() {
                            } else {
                                assert(self.model().structs[k] == struct_definition@);
                            }
                        }
                    }
                }
                h
            },
        }
    }

    /// Registers a new enum definition; enums are never deduplicated, so
    /// every call stores the definition under a fresh handle.
    pub fn new_enum(&mut self, enum_definition: EnumDefinition) -> (r: usize)
        ensures
            r == old(self).model().enums.len(),
            final(self).model().enums == old(self).model().enums.push(enum_definition@),
            final(self).model().structs == old(self).model().structs,
            final(self).files == old(self).files,
            model_extends(old(self).model(), final(self).model()),
    {
        let ghost old_model = self.model();
        let h = self.enums.len();
        self.enums.push(enum_definition);
        proof {
            assert(self.model().enums =~= old_model.enums.push(enum_definition@));
            assert(self.model().structs =~= old_model.structs);
        }
        h
    }

    /// Fetches and parses the document at `path`. Resolving never touches
    /// the registry, and resolving the same path twice yields the same
    /// document: parsing is a function of the stored text alone.
    pub fn resolve(&self, path: &str) -> (r: Result<Json, CompileFailure>)
        ensures
            r matches Ok(j) ==> spec_resolve(self.fview(), path@) == Ok::<Json, FailView>(j),
            r matches Err(f) ==> spec_resolve(self.fview(), path@) == Err::<Json, FailView>(f@),
    {
        let n = self.files.len();
        let mut i: usize = 0;
        assert(self.fview().skip(0) =~= self.fview());
        while i < n
            invariant
                i <= n,
                n == self.files@.len(),
                self.fview().len() == n,
                lookup_file(self.fview(), path@) == lookup_file(
                    self.fview().skip(i as int),
                    path@,
                ),
            decreases n - i,
        {
            assert(self.fview().skip(i as int)[0] == self.fview()[i as int]);
            assert(self.fview()[i as int] == (self.files@[i as int].0@, self.files@[i as int].1@));
            if str_eq(self.files[i].0.as_str(), path) {
                return match parse_json(self.files[i].1.as_str()) {
                    Some(j) => Ok(j),
                    None => Err(fail(CompileError::ParseError, path)),
                };
            }
            assert(self.fview().skip(i as int).drop_first() =~= self.fview().skip(i as int + 1));
            i = i + 1;
        }
        assert(self.fview().skip(n as int).len() == 0);
        Err(fail(CompileError::NotFound, path))
    }

    /// Normalizes one schema object into an [`Item`], registering every
    /// definition the descent reaches. `doc` is the path of the document
    /// the object stands in, which every failure reports; `depth` is the
    /// defensive recursion budget.
    pub fn parse_item(&mut self, value: &Json, doc: &str, depth: u64) -> (r: Result<
        Item,
        CompileFailure,
    >)
        ensures
            ({
                let sp = spec_parse_item(
                    old(self).fview(),
                    *value,
                    doc@,
                    old(self).model(),
                    depth as nat,
                );
                &&& (r matches Ok(it) ==> sp.0 == Ok::<Item, FailView>(it))
                &&& (r matches Err(f) ==> sp.0 == Err::<Item, FailView>(f@))
                &&& final(self).model() == sp.1
            }),
            final(self).files == old(self).files,
            model_extends(old(self).model(), final(self).model()),
            titles_unique(old(self).model().structs) ==> titles_unique(
                final(self).model().structs,
            ),
        decreases depth, 1int, 0int,
    {
        if depth == 0 {
            return Err(fail(CompileError::RecursionLimit, doc));
        }
        match value {
            Json::Obj(_) => {},
            _ => {
                return Err(fail(CompileError::Malformed, doc));
            },
        }
        if let Some(rv) = value.get("$ref") {
            match rv {
                Json::Str(path) => {
                    let target = match self.resolve(path.as_str()) {
                        Ok(d) => d,
                        Err(f) => {
                            return Err(f);
                        },
                    };
                    return self.parse_item(&target, path.as_str(), depth - 1);
                },
                _ => {
                    return Err(fail(CompileError::Malformed, doc));
                },
            }
        }
        match value.get("type") {
            Some(tv) => match tv {
                Json::Str(t) => {
                    if str_eq(t.as_str(), "array") {
                        let items_j = match value.get("items") {
                            Some(x) => x,
                            None => {
                                return Err(fail(CompileError::MissingItems, doc));
                            },
                        };
                        let elem = match self.parse_item(items_j, doc, depth - 1) {
                            Ok(it) => it,
                            Err(f) => {
                                return Err(f);
                            },
                        };
                        let mi = match opt_int(value, "minItems") {
                            Ok(x) => x,
                            Err(e) => {
                                return Err(fail(e, doc));
                            },
                        };
                        let ma = match opt_int(value, "maxItems") {
                            Ok(x) => x,
                            Err(e) => {
                                return Err(fail(e, doc));
                            },
                        };
                        return Ok(
                            Item::Array(
                                Array {
                                    item_type: Box::new(elem),
                                    min_items: match mi {
                                        Some(n) => n,
                                        None => 0,
                                    },
                                    max_items: ma,
                                },
                            ),
                        );
                    }
                    if str_eq(t.as_str(), "object") {
                        return self.parse_object(value, doc, depth);
                    }
                    if str_eq(t.as_str(), "integer") {
                        let mi = match opt_int(value, "minimum") {
                            Ok(x) => x,
                            Err(e) => {
                                return Err(fail(e, doc));
                            },
                        };
                        let ma = match opt_int(value, "maximum") {
                            Ok(x) => x,
                            Err(e) => {
                                return Err(fail(e, doc));
                            },
                        };
                        return Ok(
                            Item::Integer(
                                IntRange {
                                    minimum: match mi {
                                        Some(n) => n,
                                        None => i64::MIN,
                                    },
                                    maximum: match ma {
                                        Some(n) => n,
                                        None => i64::MAX,
                                    },
                                },
                            ),
                        );
                    }
                    if str_eq(t.as_str(), "number") {
                        return Ok(Item::Number);
                    }
                    if str_eq(t.as_str(), "string") {
                        return Ok(Item::String);
                    }
                    if str_eq(t.as_str(), "boolean") {
                        return Ok(Item::Boolean);
                    }
                    Ok(Item::Unknown)
                },
                _ => Err(fail(CompileError::Malformed, doc)),
            },
            None => {
                if let Some(av) = value.get("allOf") {
                    match av {
                        Json::Arr(branches) => {
                            if branches.len() == 0 {
                                return Err(fail(CompileError::Malformed, doc));
                            }
                            return self.parse_item(&branches[0], doc, depth - 1);
                        },
                        _ => {
                            return Err(fail(CompileError::Malformed, doc));
                        },
                    }
                }
                match value.get("anyOf") {
                    Some(av) => match av {
                        Json::Arr(branches) => {
                            let def = match parse_anyof(value, branches) {
                                Ok(d) => d,
                                Err(e) => {
                                    return Err(fail(e, doc));
                                },
                            };
                            let h = self.new_enum(def);
                            Ok(Item::Enum(h))
                        },
                        _ => Err(fail(CompileError::Malformed, doc)),
                    },
                    None => Ok(Item::Unknown),
                }
            },
        }
    }

    /// Normalizes an object schema: returns the already-registered struct
    /// for its title, or registers a definition built from its sorted
    /// properties and its `allOf`-merged extensions.
    fn parse_object(&mut self, j: &Json, doc: &str, depth: u64) -> (r: Result<
        Item,
        CompileFailure,
    >)
        ensures
            ({
                let sp = spec_parse_object(
                    old(self).fview(),
                    *j,
                    doc@,
                    old(self).model(),
                    depth as nat,
                );
                &&& (r matches Ok(it) ==> sp.0 == Ok::<Item, FailView>(it))
                &&& (r matches Err(f) ==> sp.0 == Err::<Item, FailView>(f@))
                &&& final(self).model() == sp.1
            }),
            final(self).files == old(self).files,
            model_extends(old(self).model(), final(self).model()),
            titles_unique(old(self).model().structs) ==> titles_unique(
                final(self).model().structs,
            ),
        decreases depth, 0int, 0int,
    {
        let title = match j.get("title") {
            Some(tv) => match tv {
                Json::Str(t) => t.clone(),
                _ => {
                    return Err(fail(CompileError::MissingTitle, doc));
                },
            },
            None => {
                return Err(fail(CompileError::MissingTitle, doc));
            },
        };
        if let Some(h) = self.lookup(title.as_str()) {
            return Ok(Item::Struct(h));
        }
        let desc = get_str_field(j, "description");
        if depth == 0 {
            return Err(fail(CompileError::RecursionLimit, doc));
        }
        let req = match required_list(j) {
            Ok(v) => v,
            Err(e) => {
                return Err(fail(e, doc));
            },
        };
        let mut props: Vec<Property> = Vec::new();
        match self.parse_properties(j, &req, &mut props, doc, depth - 1) {
            Ok(_) => {},
            Err(f) => {
                return Err(f);
            },
        }
        match j.get("allOf") {
            None => {},
            Some(av) => match av {
                Json::Arr(branches) => {
                    match self.parse_all_of(branches, &mut props, doc, depth - 1) {
                        Ok(_) => {},
                        Err(f) => {
                            return Err(f);
                        },
                    }
                },
                _ => {
                    return Err(fail(CompileError::Malformed, doc));
                },
            },
        }
        let h = self.new_struct(
            title.clone(),
            StructDefinition { title, description: desc, properties: props },
        );
        Ok(Item::Struct(h))
    }

    /// Walks a schema object's `properties` in name-sorted order, appending
    /// each normalized property to `properties_in` unless an earlier writer
    /// already holds its name.
    pub fn parse_properties(
        &mut self,
        object: &Json,
        required: &Vec<String>,
        properties_in: &mut Vec<Property>,
        doc: &str,
        depth: u64,
    ) -> (r: Result<(), CompileFailure>)
        ensures
            ({
                let sp = spec_parse_properties(
                    old(self).fview(),
                    *object,
                    required@,
                    old(properties_in)@,
                    doc@,
                    old(self).model(),
                    depth as nat,
                );
                &&& (r matches Ok(u) ==> sp.0 == Ok::<Seq<Property>, FailView>(
                    final(properties_in)@,
                ))
                &&& (r matches Err(f) ==> sp.0 == Err::<Seq<Property>, FailView>(f@))
                &&& final(self).model() == sp.1
            }),
            final(self).files == old(self).files,
            old(properties_in)@.is_prefix_of(final(properties_in)@),
            model_extends(old(self).model(), final(self).model()),
            titles_unique(old(self).model().structs) ==> titles_unique(
                final(self).model().structs,
            ),
        decreases depth, 3int, 0int,
    {
        let entries: &Vec<(String, Json)> = match object.get("properties") {
            None => {
                assert(old(properties_in)@.is_prefix_of(properties_in@)) by {
                    assert(properties_in@.subrange(0, properties_in@.len() as int)
                        =~= properties_in@);
                }
                return Ok(());
            },
            Some(pv) => match pv {
                Json::Obj(entries) => entries,
                _ => {
                    assert(old(properties_in)@.is_prefix_of(properties_in@)) by {
                        assert(properties_in@.subrange(0, properties_in@.len() as int)
                            =~= properties_in@);
                    }
                    return Err(fail(CompileError::Malformed, doc));
                },
            },
        };
        let order = sorted_order(entries);
        let ghost fv = old(self).fview();
        let ghost m0 = old(self).model();
        let n = order.len();
        let mut t: usize = 0;
        assert(order@.skip(0) =~= order@);
        assert(old(properties_in)@.is_prefix_of(properties_in@)) by {
            assert(properties_in@.subrange(0, properties_in@.len() as int) =~= properties_in@);
        }
        while t < n
            invariant
                t <= n,
                n == order@.len(),
                self.files == old(self).files,
                fv == old(self).fview(),
                m0 == old(self).model(),
                order@ == spec_sorted_order(entries@),
                spec_props_entries(*object) == Ok::<Seq<(String, Json)>, CompileError>(entries@),
                spec_parse_props(
                    fv,
                    entries@,
                    order@,
                    required@,
                    old(properties_in)@,
                    doc@,
                    m0,
                    depth as nat,
                ) == spec_parse_props(
                    fv,
                    entries@,
                    order@.skip(t as int),
                    required@,
                    properties_in@,
                    doc@,
                    self.model(),
                    depth as nat,
                ),
                old(properties_in)@.is_prefix_of(properties_in@),
                model_extends(m0, self.model()),
                titles_unique(m0.structs) ==> titles_unique(self.model().structs),
            decreases n - t,
        {
            assert(order@.skip(t as int)[0] == order@[t as int]);
            assert(order@.skip(t as int).drop_first() =~= order@.skip(t as int + 1));
            let idx = order[t];
            if idx >= entries.len() {
                return Err(fail(CompileError::Malformed, doc));
            }
            let ghost acc_before = properties_in@;
            if prop_taken(properties_in, entries[idx].0.as_str()) {
                t = t + 1;
                continue ;
            }
            if str_eq(entries[idx].0.as_str(), "extensions") {
                let p = Property {
                    title: entries[idx].0.clone(),
                    description: None,
                    item: Item::Extension,
                    required: contains_string(required, entries[idx].0.as_str()),
                };
                properties_in.push(p);
                proof {
                    assert(properties_in@.subrange(0, old(properties_in)@.len() as int)
                        =~= old(properties_in)@);
                }
                t = t + 1;
                continue ;
            }
            let item = match self.parse_item(&entries[idx].1, doc, depth) {
                Ok(it) => it,
                Err(f) => {
                    return Err(f);
                },
            };
            let p = Property {
                title: entries[idx].0.clone(),
                description: get_str_field(&entries[idx].1, "description"),
                item,
                required: contains_string(required, entries[idx].0.as_str()),
            };
            properties_in.push(p);
            proof {
                assert(properties_in@.subrange(0, old(properties_in)@.len() as int)
                    =~= old(properties_in)@);
            }
            t = t + 1;
        }
        assert(order@.skip(n as int).len() == 0);
        Ok(())
    }

    /// Merges `allOf` branches into `properties_in`: each branch is
    /// resolved (one `$ref` stands for its target), then its properties
    /// are walked into the same list, earlier writers keeping their names.
    fn parse_all_of(
        &mut self,
        branches: &Vec<Json>,
        properties_in: &mut Vec<Property>,
        doc: &str,
        depth: u64,
    ) -> (r: Result<(), CompileFailure>)
        ensures
            ({
                let sp = spec_parse_allof(
                    old(self).fview(),
                    branches@,
                    old(properties_in)@,
                    doc@,
                    old(self).model(),
                    depth as nat,
                );
                &&& (r matches Ok(u) ==> sp.0 == Ok::<Seq<Property>, FailView>(
                    final(properties_in)@,
                ))
                &&& (r matches Err(f) ==> sp.0 == Err::<Seq<Property>, FailView>(f@))
                &&& final(self).model() == sp.1
            }),
            final(self).files == old(self).files,
            old(properties_in)@.is_prefix_of(final(properties_in)@),
            model_extends(old(self).model(), final(self).model()),
            titles_unique(old(self).model().structs) ==> titles_unique(
                final(self).model().structs,
            ),
        decreases depth, 4int, 0int,
    {
        let ghost fv = old(self).fview();
        let ghost m0 = old(self).model();
        let n = branches.len();
        let mut t: usize = 0;
        assert(branches@.skip(0) =~= branches@);
        assert(old(properties_in)@.is_prefix_of(properties_in@)) by {
            assert(properties_in@.subrange(0, properties_in@.len() as int) =~= properties_in@);
        }
        while t < n
            invariant
                t <= n,
                n == branches@.len(),
                self.files == old(self).files,
                fv == old(self).fview(),
                m0 == old(self).model(),
                spec_parse_allof(fv, branches@, old(properties_in)@, doc@, m0, depth as nat)
                    == spec_parse_allof(
                    fv,
                    branches@.skip(t as int),
                    properties_in@,
                    doc@,
                    self.model(),
                    depth as nat,
                ),
                old(properties_in)@.is_prefix_of(properties_in@),
                model_extends(m0, self.model()),
                titles_unique(m0.structs) ==> titles_unique(self.model().structs),
            decreases n - t,
        {
            assert(branches@.skip(t as int)[0] == branches@[t as int]);
            assert(branches@.skip(t as int).drop_first() =~= branches@.skip(t as int + 1));
            let refstr: Option<&String> = match branches[t].get("$ref") {
                Some(rv) => match rv {
                    Json::Str(path) => Some(path),
                    _ => {
                        return Err(fail(CompileError::Malformed, doc));
                    },
                },
                None => None,
            };
            let resolved: Option<Json> = match refstr {
                Some(path) => match self.resolve(path.as_str()) {
                    Ok(d) => Some(d),
                    Err(f) => {
                        return Err(f);
                    },
                },
                None => None,
            };
            let (branch_doc, branch_path): (&Json, &str) = match (&resolved, refstr) {
                (Some(d), Some(path)) => (d, path.as_str()),
                _ => (&branches[t], doc),
            };
            match branch_doc {
                Json::Obj(_) => {},
                _ => {
                    return Err(fail(CompileError::Malformed, branch_path));
                },
            }
            let req = match required_list(branch_doc) {
                Ok(v) => v,
                Err(e) => {
                    return Err(fail(e, branch_path));
                },
            };
            match self.parse_properties(branch_doc, &req, properties_in, branch_path, depth) {
                Ok(_) => {},
                Err(f) => {
                    return Err(f);
                },
            }
            t = t + 1;
        }
        assert(branches@.skip(n as int).len() == 0);
        Ok(())
    }

    /// Resolves `path` and normalizes the document's root schema object.
    pub fn parse_file(&mut self, path: &str, depth: u64) -> (r: Result<Item, CompileFailure>)
        ensures
            ({
                let sp = spec_parse_file(old(self).fview(), path@, old(self).model(), depth as nat);
                &&& (r matches Ok(it) ==> sp.0 == Ok::<Item, FailView>(it))
                &&& (r matches Err(f) ==> sp.0 == Err::<Item, FailView>(f@))
                &&& final(self).model() == sp.1
            }),
            final(self).files == old(self).files,
            model_extends(old(self).model(), final(self).model()),
            titles_unique(old(self).model().structs) ==> titles_unique(
                final(self).model().structs,
            ),
    {
        let target = match self.resolve(path) {
            Ok(d) => d,
            Err(f) => {
                return Err(f);
            },
        };
        self.parse_item(&target, path, depth)
    }
}

/// What resolving and normalizing a whole document yields.
pub open spec fn spec_parse_file(
    files: Seq<(Seq<char>, Seq<char>)>,
    path: Seq<char>,
    m: ParserModel,
    depth: nat,
) -> (Result<Item, FailView>, ParserModel) {
    match spec_resolve(files, path) {
        Err(f) => (Err(f), m),
        Ok(target) => spec_parse_item(files, target, path, m, depth),
    }
}

} // verus!
