//! Header fields of a request or a response, as an ordered list of names and values.

use crate::text::{
    chars_of, eq_ignore_case, eq_ignore_case_symmetric, eq_ignore_case_transitive, matches_name,
};
use vstd::prelude::*;
use vstd::string::*;

verus! {

/// One header field. The value is kept as the bytes that were on the wire.
#[derive(Debug, PartialEq, Eq)]
pub struct Header {
    pub name: String,
    pub value: Vec<u8>,
}

/// The mathematical content of a [`Header`].
pub struct HeaderView {
    pub name: Seq<char>,
    pub value: Seq<u8>,
}

impl DeepView for Header {
    type V = HeaderView;

    open spec fn deep_view(&self) -> HeaderView {
        HeaderView { name: self.name@, value: self.value@ }
    }
}

impl View for Header {
    type V = HeaderView;

    open spec fn view(&self) -> HeaderView {
        self.deep_view()
    }
}

impl Clone for Header {
    fn clone(&self) -> (r: Self)
        ensures
            r@ == self@,
    {
        Header { name: self.name.clone(), value: self.value.clone() }
    }
}

/// The field at `i` is the first one of `headers` that is named `name`.
pub open spec fn is_first_named(headers: Seq<HeaderView>, name: Seq<char>, i: int) -> bool {
    &&& 0 <= i < headers.len()
    &&& eq_ignore_case(headers[i].name, name)
    &&& forall|j: int| 0 <= j < i ==> !eq_ignore_case((#[trigger] headers[j]).name, name)
}

/// Some field of `headers` is named `name`.
pub open spec fn has_named(headers: Seq<HeaderView>, name: Seq<char>) -> bool {
    exists|i: int| 0 <= i < headers.len() && eq_ignore_case((#[trigger] headers[i]).name, name)
}

/// The value of the first field named `name`, if there is one.
pub open spec fn lookup(headers: Seq<HeaderView>, name: Seq<char>) -> Option<Seq<u8>> {
    if exists|i: int| is_first_named(headers, name, i) {
        Some(headers[choose|i: int| is_first_named(headers, name, i)].value)
    } else {
        None
    }
}

/// `headers` without the fields named `name`, the others in their order.
pub open spec fn without(headers: Seq<HeaderView>, name: Seq<char>) -> Seq<HeaderView> {
    headers.filter(|h: HeaderView| !eq_ignore_case(h.name, name))
}

/// `headers` with `header` as the only field of its name: fields of that name
/// are dropped and `header` is added at the end.
pub open spec fn set_header(headers: Seq<HeaderView>, header: HeaderView) -> Seq<HeaderView> {
    without(headers, header.name).push(header)
}

/// `headers` after each of `fields` was set in turn, see [`set_header`].
pub open spec fn set_all(headers: Seq<HeaderView>, fields: Seq<HeaderView>) -> Seq<HeaderView>
    decreases fields.len(),
{
    if fields.len() == 0 {
        headers
    } else {
        set_header(set_all(headers, fields.drop_last()), fields.last())
    }
}

/// The field that `name` selects from `headers`: the name as it was asked
/// for, with the value of the first field of that name.
pub open spec fn pick(headers: Seq<HeaderView>, name: Seq<char>) -> Option<HeaderView> {
    match lookup(headers, name) {
        Some(value) => Some(HeaderView { name, value }),
        None => None,
    }
}

/// The fields that `names` select from `headers`, in the order of `names`;
/// a name that no field has selects nothing.
pub open spec fn picked_headers(names: Seq<Seq<char>>, headers: Seq<HeaderView>) -> Seq<
    HeaderView,
> {
    names.filter_map(|name: Seq<char>| pick(headers, name))
}

/// At most one position is the first one with a given name.
pub proof fn first_named_is_unique(headers: Seq<HeaderView>, name: Seq<char>, i: int, j: int)
    requires
        is_first_named(headers, name, i),
        is_first_named(headers, name, j),
    ensures
        i == j,
{
    if i < j {
        assert(!eq_ignore_case(headers[i].name, name));
    }
    if j < i {
        assert(!eq_ignore_case(headers[j].name, name));
    }
}

/// A name is looked up with success exactly when some field has it.
pub proof fn lookup_is_some_iff_named(headers: Seq<HeaderView>, name: Seq<char>)
    ensures
        lookup(headers, name) is Some <==> has_named(headers, name),
    decreases headers.len(),
{
    if has_named(headers, name) {
        let k = choose|i: int|
            0 <= i < headers.len() && eq_ignore_case((#[trigger] headers[i]).name, name);
        first_named_exists(headers, name, k);
    }
    if lookup(headers, name) is Some {
        let i = choose|i: int| is_first_named(headers, name, i);
        assert(eq_ignore_case(headers[i].name, name));
    }
}

proof fn first_named_exists(headers: Seq<HeaderView>, name: Seq<char>, k: int)
    requires
        0 <= k < headers.len(),
        eq_ignore_case(headers[k].name, name),
    ensures
        exists|i: int| is_first_named(headers, name, i),
    decreases k,
{
    if forall|j: int| 0 <= j < k ==> !eq_ignore_case((#[trigger] headers[j]).name, name) {
        assert(is_first_named(headers, name, k));
    } else {
        let j = choose|j: int| 0 <= j < k && eq_ignore_case((#[trigger] headers[j]).name, name);
        first_named_exists(headers, name, j);
    }
}

/// Two names that match up to case find the same field.
pub proof fn lookup_respects_case(headers: Seq<HeaderView>, a: Seq<char>, b: Seq<char>)
    requires
        eq_ignore_case(a, b),
    ensures
        lookup(headers, a) == lookup(headers, b),
        has_named(headers, a) == has_named(headers, b),
{
    eq_ignore_case_symmetric(a, b);
    assert forall|i: int| is_first_named(headers, a, i) == is_first_named(headers, b, i) by {
        if is_first_named(headers, a, i) {
            same_names_same_first(headers, a, b, i);
        }
        if is_first_named(headers, b, i) {
            same_names_same_first(headers, b, a, i);
        }
    }
    if exists|i: int| is_first_named(headers, a, i) {
        let i = choose|i: int| is_first_named(headers, a, i);
        let j = choose|j: int| is_first_named(headers, b, j);
        assert(is_first_named(headers, b, i));
        first_named_is_unique(headers, b, i, j);
    }
    lookup_is_some_iff_named(headers, a);
    lookup_is_some_iff_named(headers, b);
}

proof fn same_names_same_first(headers: Seq<HeaderView>, a: Seq<char>, b: Seq<char>, i: int)
    requires
        eq_ignore_case(a, b),
        is_first_named(headers, a, i),
    ensures
        is_first_named(headers, b, i),
{
    eq_ignore_case_symmetric(a, b);
    eq_ignore_case_transitive(headers[i].name, a, b);
    assert forall|j: int| 0 <= j < i implies !eq_ignore_case((#[trigger] headers[j]).name, b) by {
        if eq_ignore_case(headers[j].name, b) {
            eq_ignore_case_transitive(headers[j].name, b, a);
        }
    }
}

/// What is left without a name are fields of the list, none of them of that
/// name; and every field of another name is left.
pub proof fn without_keeps_the_others(headers: Seq<HeaderView>, name: Seq<char>)
    ensures
        !has_named(without(headers, name), name),
        forall|h: HeaderView| #[trigger]
            without(headers, name).contains(h) <==> headers.contains(h) && !eq_ignore_case(
                h.name,
                name,
            ),
{
    let keep = |h: HeaderView| !eq_ignore_case(h.name, name);
    let left = headers.filter(keep);
    broadcast use vstd::seq_lib::group_filter_ensures;

    assert forall|h: HeaderView| #[trigger] left.contains(h) implies headers.contains(h)
        && !eq_ignore_case(h.name, name) by {
        headers.lemma_filter_contains_rev(keep, h);
        let i = choose|i: int| 0 <= i < left.len() && left[i] == h;
        headers.lemma_filter_pred(keep, i);
    }
    assert forall|h: HeaderView| headers.contains(h) && !eq_ignore_case(h.name, name) implies
        #[trigger] left.contains(h) by {
        let i = choose|i: int| 0 <= i < headers.len() && headers[i] == h;
        headers.lemma_filter_contains(keep, i);
    }
    if has_named(left, name) {
        let i = choose|i: int| 0 <= i < left.len() && eq_ignore_case((#[trigger] left[i]).name, name);
        assert(left.contains(left[i]));
    }
}

/// After a field was set, the list holds that field, and of the fields it
/// held before those of another name.
pub proof fn set_header_members(headers: Seq<HeaderView>, header: HeaderView)
    ensures
        forall|h: HeaderView| #[trigger]
            set_header(headers, header).contains(h) <==> h == header || (headers.contains(h)
                && !eq_ignore_case(h.name, header.name)),
{
    without_keeps_the_others(headers, header.name);
    let left = without(headers, header.name);
    let after = set_header(headers, header);
    assert forall|h: HeaderView| #[trigger] after.contains(h) implies h == header || left.contains(
        h,
    ) by {
        let i = choose|i: int| 0 <= i < after.len() && after[i] == h;
        if i < left.len() {
            assert(left[i] == h);
        }
    }
    assert forall|h: HeaderView| h == header || left.contains(h) implies #[trigger] after.contains(
        h,
    ) by {
        if h == header {
            assert(after[left.len() as int] == h);
        } else {
            let i = choose|i: int| 0 <= i < left.len() && left[i] == h;
            assert(after[i] == h);
        }
    }
}

/// After fields were set, the list holds only fields that it held before and
/// fields that were set.
pub proof fn set_all_members(headers: Seq<HeaderView>, fields: Seq<HeaderView>, h: HeaderView)
    requires
        set_all(headers, fields).contains(h),
    ensures
        headers.contains(h) || fields.contains(h),
    decreases fields.len(),
{
    if fields.len() > 0 {
        let before = set_all(headers, fields.drop_last());
        set_header_members(before, fields.last());
        if h == fields.last() {
            assert(fields[fields.len() - 1] == h);
        } else {
            set_all_members(headers, fields.drop_last(), h);
            if fields.drop_last().contains(h) {
                let i = choose|i: int| 0 <= i < fields.drop_last().len() && fields.drop_last()[i] == h;
                assert(fields[i] == h);
            }
        }
    }
}

/// Setting fields takes no name away: a name that the list had, or one of
/// the fields has, is a name of the list afterwards.
pub proof fn set_all_keeps_names(
    headers: Seq<HeaderView>,
    fields: Seq<HeaderView>,
    name: Seq<char>,
)
    requires
        has_named(headers, name) || has_named(fields, name),
    ensures
        has_named(set_all(headers, fields), name),
    decreases fields.len(),
{
    if fields.len() > 0 {
        let rest = fields.drop_last();
        let last = fields.last();
        let before = set_all(headers, rest);
        let after = set_header(before, last);
        set_header_members(before, last);
        if eq_ignore_case(last.name, name) {
            assert(after.contains(last));
            let k = choose|k: int| 0 <= k < after.len() && after[k] == last;
            assert(eq_ignore_case(after[k].name, name));
        } else {
            if has_named(fields, name) {
                let i = choose|i: int|
                    0 <= i < fields.len() && eq_ignore_case((#[trigger] fields[i]).name, name);
                assert(eq_ignore_case(rest[i].name, name));
            }
            set_all_keeps_names(headers, rest, name);
            let j = choose|j: int|
                0 <= j < before.len() && eq_ignore_case((#[trigger] before[j]).name, name);
            let h = before[j];
            assert(before.contains(h));
            if eq_ignore_case(h.name, last.name) {
                eq_ignore_case_symmetric(h.name, last.name);
                eq_ignore_case_transitive(last.name, h.name, name);
            }
            assert(after.contains(h));
            let k = choose|k: int| 0 <= k < after.len() && after[k] == h;
            assert(eq_ignore_case(after[k].name, name));
        }
    }
}

/// A name that finds a field is picked, under the name as it was asked for.
pub proof fn picked_when_found(names: Seq<Seq<char>>, headers: Seq<HeaderView>, i: int)
    requires
        0 <= i < names.len(),
        lookup(headers, names[i]) is Some,
    ensures
        picked_headers(names, headers).contains(
            HeaderView { name: names[i], value: lookup(headers, names[i])->0 },
        ),
    decreases names.len(),
{
    let select = |name: Seq<char>| pick(headers, name);
    let rest = names.drop_last();
    let field = HeaderView { name: names[i], value: lookup(headers, names[i])->0 };
    let picked = names.filter_map(select);
    if i == names.len() - 1 {
        assert(picked == rest.filter_map(select) + seq![field]);
        assert(picked[picked.len() - 1] == field);
    } else {
        picked_when_found(rest, headers, i);
        let before = rest.filter_map(select);
        let k = choose|k: int| 0 <= k < before.len() && before[k] == field;
        match select(names.last()) {
            Some(more) => {
                assert(picked == before + seq![more]);
                assert(picked[k] == field);
            },
            None => {},
        }
    }
}

/// A picked field carries one of the names that were asked for, and the value
/// that this name finds.
pub proof fn picked_members(names: Seq<Seq<char>>, headers: Seq<HeaderView>, h: HeaderView)
    requires
        picked_headers(names, headers).contains(h),
    ensures
        names.contains(h.name),
        lookup(headers, h.name) == Some(h.value),
{
    names.lemma_filter_map_contains(|name: Seq<char>| pick(headers, name), h);
}

/// The value of the first field of `headers` that is named `name`.
pub fn get<'a>(headers: &'a Vec<Header>, name: &str) -> (r: Option<&'a Vec<u8>>)
    ensures
        match r {
            Some(v) => lookup(headers.deep_view(), name@) == Some(v@),
            None => lookup(headers.deep_view(), name@) is None,
        },
{
    let mut i: usize = 0;
    while i < headers.len()
        invariant
            i <= headers.len(),
            forall|j: int|
                0 <= j < i ==> !eq_ignore_case((#[trigger] headers.deep_view()[j]).name, name@),
        decreases headers.len() - i,
    {
        let field_name = chars_of(headers[i].name.as_str());
        if matches_name(&field_name, name) {
            proof {
                let hs = headers.deep_view();
                assert(is_first_named(hs, name@, i as int));
                let k = choose|k: int| is_first_named(hs, name@, k);
                first_named_is_unique(hs, name@, i as int, k);
            }
            return Some(&headers[i].value);
        }
        i += 1;
    }
    proof {
        let hs = headers.deep_view();
        if exists|k: int| is_first_named(hs, name@, k) {
            let k = choose|k: int| is_first_named(hs, name@, k);
            assert(eq_ignore_case(hs[k].name, name@));
        }
    }
    None
}

/// Makes `header` the only field of its name in `headers`.
pub fn set_field(headers: &mut Vec<Header>, header: Header)
    ensures
        final(headers).deep_view() == set_header(old(headers).deep_view(), header@),
{
    let mut kept: Vec<Header> = Vec::new();
    let mut i: usize = 0;
    let ghost keep = |h: HeaderView| !eq_ignore_case(h.name, header@.name);
    while i < headers.len()
        invariant
            i <= headers.len(),
            keep == (|h: HeaderView| !eq_ignore_case(h.name, header@.name)),
            kept.deep_view() == headers.deep_view().take(i as int).filter(keep),
        decreases headers.len() - i,
    {
        let field_name = chars_of(headers[i].name.as_str());
        proof {
            let hs = headers.deep_view();
            assert(hs.take(i + 1).drop_last() =~= hs.take(i as int));
            reveal(Seq::filter);
        }
        if !matches_name(&field_name, header.name.as_str()) {
            kept.push(headers[i].clone());
        }
        i += 1;
    }
    proof {
        assert(headers.deep_view().take(i as int) =~= headers.deep_view());
    }
    kept.push(header);
    *headers = kept;
}

/// The fields that `names` select from `headers`, in the order of `names`.
pub fn pick_headers(names: &Vec<String>, headers: &Vec<Header>) -> (picked: Vec<Header>)
    ensures
        picked.deep_view() == picked_headers(names.deep_view(), headers.deep_view()),
{
    let ghost select = |name: Seq<char>| pick(headers.deep_view(), name);
    let mut picked: Vec<Header> = Vec::new();
    let mut i: usize = 0;
    while i < names.len()
        invariant
            i <= names.len(),
            select == (|name: Seq<char>| pick(headers.deep_view(), name)),
            picked.deep_view() == names.deep_view().take(i as int).filter_map(select),
        decreases names.len() - i,
    {
        let ghost before = picked.deep_view();
        proof {
            names.deep_view().lemma_filter_map_take_succ(select, i as int);
        }
        match get(headers, names[i].as_str()) {
            Some(value) => {
                let field = Header { name: names[i].clone(), value: value.clone() };
                picked.push(field);
                assert(picked.deep_view() =~= before + seq![field@]);
            },
            None => {
                assert(picked.deep_view() =~= before + Seq::<HeaderView>::empty());
            },
        }
        i += 1;
    }
    proof {
        assert(names.deep_view().take(i as int) =~= names.deep_view());
    }
    picked
}

/// Sets each of `fields` in turn.
pub fn set_each(headers: &mut Vec<Header>, fields: Vec<Header>)
    ensures
        final(headers).deep_view() == set_all(old(headers).deep_view(), fields.deep_view()),
{
    let mut i: usize = 0;
    while i < fields.len()
        invariant
            i <= fields.len(),
            headers.deep_view() == set_all(
                old(headers).deep_view(),
                fields.deep_view().take(i as int),
            ),
        decreases fields.len() - i,
    {
        proof {
            assert(fields.deep_view().take(i + 1).drop_last() =~= fields.deep_view().take(i as int));
        }
        set_field(headers, fields[i].clone());
        i += 1;
    }
    proof {
        assert(fields.deep_view().take(i as int) =~= fields.deep_view());
    }
}

} // verus!
