//! What the book service asks of the store: the request behind each of its operations.
//!
//! A list request carries its query options over into one document, which the store is
//! given as the sort order of an unfiltered find. The options are walked in their order,
//! starting from an empty document. The option `sort`, with the value `asc` or `desc`,
//! stores 1 or -1 under the attribute that the option `field` names, and with any other
//! value stores nothing; `field` itself stores nothing; every other option is stored as a
//! text under its own name. No filter document is ever made.
//!
//! Which options a request gives decides what the document holds under each name, whatever
//! the order of the walk; only where another option has the name of the ordered attribute
//! does the one walked later decide. The order of the walk is the order of the entries.

use crate::document::{document_entries, document_insert, Value, ValueView};
use crate::entries::{
    distinct_keys, has_key, index_of, lemma_index_of_unique, lemma_put, put, value_of,
};
use crate::list_options::ListOptions;
use crate::record_id::RecordId;
use vstd::prelude::*;
use vstd::string::StringExecFns;

verus! {

/// Name of the option that asks for an ordering.
pub open spec fn sort_name() -> Seq<char> {
    "sort"@
}

/// Name of the option that names the attribute to order by.
pub open spec fn field_name() -> Seq<char> {
    "field"@
}

/// Name under which a record's identifier is stored.
pub open spec fn id_name() -> Seq<char> {
    "_id"@
}

/// Whether `name` is one of the two reserved option names.
pub open spec fn is_reserved(name: Seq<char>) -> bool {
    name == sort_name() || name == field_name()
}

/// The direction that a value of the `sort` option asks for: 1 for `asc`, -1 for `desc`,
/// none for anything else.
pub open spec fn direction(value: Seq<char>) -> Option<i32> {
    if value == "asc"@ {
        Some(1i32)
    } else if value == "desc"@ {
        Some(-1i32)
    } else {
        None
    }
}

/// Whether the options ask for an ordering: `sort` is present with a recognised value.
pub open spec fn asks_ordering(options: Seq<(Seq<char>, Seq<char>)>) -> bool {
    has_key(options, sort_name()) && direction(value_of(options, sort_name())) is Some
}

/// Whether a sort document can be made from the options: where they ask for an ordering,
/// they also name the attribute to order by.
pub open spec fn loadable(options: Seq<(Seq<char>, Seq<char>)>) -> bool {
    asks_ordering(options) ==> has_key(options, field_name())
}

/// The attribute that the options order by, where they ask for an ordering.
pub open spec fn ordered_attribute(options: Seq<(Seq<char>, Seq<char>)>) -> Seq<char> {
    value_of(options, field_name())
}

/// `doc` after one option has been walked.
pub open spec fn carried(
    doc: Seq<(Seq<char>, ValueView)>,
    options: Seq<(Seq<char>, Seq<char>)>,
    option: (Seq<char>, Seq<char>),
) -> Seq<(Seq<char>, ValueView)> {
    if option.0 == sort_name() {
        match direction(option.1) {
            Some(d) => put(doc, ordered_attribute(options), ValueView::Int32(d)),
            None => doc,
        }
    } else if option.0 == field_name() {
        doc
    } else {
        put(doc, option.0, ValueView::Text(option.1))
    }
}

/// The document after the first `n` options have been walked, starting from an empty one.
pub open spec fn carried_over(options: Seq<(Seq<char>, Seq<char>)>, n: int) -> Seq<
    (Seq<char>, ValueView),
>
    decreases n,
{
    if n <= 0 {
        Seq::empty()
    } else {
        carried(carried_over(options, n - 1), options, options[n - 1])
    }
}

/// The sort document of a list request with the given options: the document after all of
/// them have been walked.
pub open spec fn sort_document(options: Seq<(Seq<char>, Seq<char>)>) -> Seq<
    (Seq<char>, ValueView),
> {
    carried_over(options, options.len() as int)
}

/// A find on the collection: an optional filter and a sort order.
#[derive(Debug)]
pub struct FindRequest {
    pub filter: Option<bson::Document>,
    pub sort: bson::Document,
}

/// A delete on the collection: the criterion that the record to delete meets.
#[derive(Debug)]
pub struct DeleteRequest {
    pub filter: bson::Document,
}

/// Whether [`load`] can be called on these options.
pub fn can_load(list_filter: &ListOptions) -> (ok: bool)
    ensures
        ok == loadable(list_filter@),
{
    match list_filter.get("sort") {
        Some(value) => {
            let asc = String::from_str("asc");
            let desc = String::from_str("desc");
            if *value == asc || *value == desc {
                list_filter.contains_key("field")
            } else {
                true
            }
        },
        None => true,
    }
}

/// The find that lists the books under the given query options: unfiltered, with the sort
/// document that the options give.
pub fn load(list_filter: &ListOptions) -> (request: FindRequest)
    requires
        loadable(list_filter@),
    ensures
        request.filter is None,
        document_entries(request.sort) == sort_document(list_filter@),
{
    proof {
        use_type_invariant(list_filter);
    }
    let sort_key = String::from_str("sort");
    let field_key = String::from_str("field");
    let asc = String::from_str("asc");
    let desc = String::from_str("desc");
    let ghost options = list_filter@;
    let mut sort = bson::Document::new();
    let n = list_filter.len();
    let mut i: usize = 0;
    while i < n
        invariant
            i <= n,
            n == options.len(),
            options == list_filter@,
            distinct_keys(options),
            loadable(options),
            sort_key@ == sort_name(),
            field_key@ == field_name(),
            asc@ == "asc"@,
            desc@ == "desc"@,
            document_entries(sort) == carried_over(options, i as int),
        decreases n - i,
    {
        let (name, value) = list_filter.entry(i);
        if *name == sort_key {
            proof {
                lemma_index_of_unique(options, i as int);
            }
            if *value == asc {
                let field = list_filter.get("field").unwrap();
                document_insert(&mut sort, field.as_str(), Value::Int32(1));
            } else if *value == desc {
                let field = list_filter.get("field").unwrap();
                document_insert(&mut sort, field.as_str(), Value::Int32(-1));
            }
        } else if *name != field_key {
            document_insert(&mut sort, name.as_str(), Value::Text(value.clone()));
        }
        i += 1;
    }
    FindRequest { filter: None, sort }
}

/// The delete of the record with the given identifier: the criterion is that the record's
/// identifier equals `id`.
pub fn delete(id: RecordId) -> (request: DeleteRequest)
    ensures
        document_entries(request.filter) == seq![(id_name(), ValueView::Id(id@))],
{
    let mut filter = bson::Document::new();
    document_insert(&mut filter, "_id", Value::Id(id));
    assert(document_entries(filter) =~= seq![(id_name(), ValueView::Id(id@))]);
    DeleteRequest { filter }
}

/// Whether one of the first `n` options has the name `name`.
pub open spec fn walked(options: Seq<(Seq<char>, Seq<char>)>, n: int, name: Seq<char>) -> bool {
    exists|j: int| 0 <= j < n && j < options.len() && (#[trigger] options[j]).0 == name
}

/// Whether the ordering that the options ask for has been stored once the first `n` of
/// them have been walked: they ask for one, and `sort` is among those walked.
pub open spec fn ordered_after(options: Seq<(Seq<char>, Seq<char>)>, n: int) -> bool {
    asks_ordering(options) && walked(options, n, sort_name())
}

/// Whether the options give a text to store under `name`: an option of that name, other
/// than the two reserved ones.
pub open spec fn gives_text(options: Seq<(Seq<char>, Seq<char>)>, name: Seq<char>) -> bool {
    has_key(options, name) && !is_reserved(name)
}

/// Whether two sequences of options give the same options, in whatever order.
pub open spec fn same_options(
    a: Seq<(Seq<char>, Seq<char>)>,
    b: Seq<(Seq<char>, Seq<char>)>,
) -> bool {
    forall|name: Seq<char>|
        #![trigger has_key(a, name)]
        #![trigger has_key(b, name)]
        has_key(a, name) == has_key(b, name) && (has_key(a, name) ==> value_of(a, name)
            == value_of(b, name))
}

/// Whether two documents hold the same values under the same keys, in whatever order.
pub open spec fn same_entries(
    a: Seq<(Seq<char>, ValueView)>,
    b: Seq<(Seq<char>, ValueView)>,
) -> bool {
    forall|key: Seq<char>|
        #![trigger has_key(a, key)]
        #![trigger has_key(b, key)]
        has_key(a, key) == has_key(b, key) && (has_key(a, key) ==> value_of(a, key) == value_of(
            b,
            key,
        ))
}

/// Whether every value of the document is a text: it holds no ordering.
pub open spec fn orders_nothing(doc: Seq<(Seq<char>, ValueView)>) -> bool {
    forall|i: int| 0 <= i < doc.len() ==> (#[trigger] doc[i]).1 is Text
}

/// Whether the options hold nothing but the two reserved names.
pub open spec fn only_reserved(options: Seq<(Seq<char>, Seq<char>)>) -> bool {
    forall|i: int| 0 <= i < options.len() ==> is_reserved((#[trigger] options[i]).0)
}

/// The document that holds the ordering that the options ask for, and nothing else.
pub open spec fn ordering(options: Seq<(Seq<char>, Seq<char>)>) -> Seq<(Seq<char>, ValueView)> {
    if asks_ordering(options) {
        seq![
            (
                ordered_attribute(options),
                ValueView::Int32(direction(value_of(options, sort_name())).unwrap()),
            ),
        ]
    } else {
        Seq::empty()
    }
}

/// An option has been walked among the first `n` if it is the last of them or has been
/// walked among those before.
pub proof fn lemma_walked_step(options: Seq<(Seq<char>, Seq<char>)>, n: int, name: Seq<char>)
    requires
        0 < n <= options.len(),
    ensures
        walked(options, n, name) == (walked(options, n - 1, name) || options[n - 1].0 == name),
{
    if walked(options, n, name) {
        let j = choose|j: int| 0 <= j < n && j < options.len() && (#[trigger] options[j]).0 == name;
        if j < n - 1 {
            assert(walked(options, n - 1, name));
        }
    }
    if walked(options, n - 1, name) {
        let j = choose|j: int|
            0 <= j < n - 1 && j < options.len() && (#[trigger] options[j]).0 == name;
        assert(options[j].0 == name);
    }
    if options[n - 1].0 == name {
        assert(walked(options, n, name));
    }
}

/// What the document holds after the first `n` options have been walked: a text under the
/// name of every option walked, but for the reserved ones, and once `sort` has been walked
/// with a recognised value, the direction under the ordered attribute. What stands under
/// that attribute's name where another option has it is left to
/// [`lemma_carried_over_later_decides`].
pub proof fn lemma_carried_over(options: Seq<(Seq<char>, Seq<char>)>, n: int)
    requires
        distinct_keys(options),
        0 <= n <= options.len(),
    ensures
        distinct_keys(carried_over(options, n)),
        forall|key: Seq<char>| #[trigger]
            has_key(carried_over(options, n), key) <==> (walked(options, n, key) && !is_reserved(key))
                || (ordered_after(options, n) && key == ordered_attribute(options)),
        forall|j: int|
            0 <= j < n && !is_reserved((#[trigger] options[j]).0) && !(ordered_after(options, n)
                && options[j].0 == ordered_attribute(options)) ==> value_of(
                carried_over(options, n),
                options[j].0,
            ) == ValueView::Text(options[j].1),
        ordered_after(options, n) && !gives_text(options, ordered_attribute(options)) ==> value_of(
            carried_over(options, n),
            ordered_attribute(options),
        ) == ValueView::Int32(direction(value_of(options, sort_name())).unwrap()),
    decreases n,
{
    if n > 0 {
        lemma_carried_over(options, n - 1);
        let before = carried_over(options, n - 1);
        let doc = carried_over(options, n);
        let option = options[n - 1];
        let attribute = ordered_attribute(options);
        let ordered_before = ordered_after(options, n - 1);
        let ordered = ordered_after(options, n);
        lemma_index_of_unique(options, n - 1);
        lemma_walked_step(options, n, sort_name());
        assert forall|key: Seq<char>|
            walked(options, n, key) == (walked(options, n - 1, key) || option.0
                == key) by {
            lemma_walked_step(options, n, key);
        }
        assert forall|j: int| 0 <= j < n - 1 implies walked(
            options,
            n - 1,
            (#[trigger] options[j]).0,
        ) && options[j].0 != option.0 by {}
        if option.0 == sort_name() && direction(option.1) is Some {
            let d = direction(option.1).unwrap();
            assert(doc == put(before, attribute, ValueView::Int32(d)));
            lemma_put(before, attribute, ValueView::Int32(d));
            assert(ordered);
            assert forall|key: Seq<char>| #[trigger]
                has_key(doc, key) <==> (walked(options, n, key) && !is_reserved(key)) || (ordered
                    && key == attribute) by {
                lemma_walked_step(options, n, key);
                if key != attribute {
                    assert(has_key(doc, key) == has_key(before, key));
                }
            }
            assert forall|j: int|
                0 <= j < n && !is_reserved((#[trigger] options[j]).0) && !(ordered && options[j].0
                    == attribute) implies value_of(doc, options[j].0) == ValueView::Text(
                options[j].1,
            ) by {
                assert(j < n - 1);
                assert(walked(options, n - 1, options[j].0));
                assert(has_key(before, options[j].0));
            }
        } else if is_reserved(option.0) {
            assert(doc == before);
            assert(ordered == ordered_before);
            assert forall|key: Seq<char>| #[trigger]
                has_key(doc, key) <==> (walked(options, n, key) && !is_reserved(key)) || (ordered
                    && key == attribute) by {
                lemma_walked_step(options, n, key);
            }
        } else {
            let text = ValueView::Text(option.1);
            assert(doc == put(before, option.0, text));
            lemma_put(before, option.0, text);
            assert(ordered == ordered_before);
            assert(gives_text(options, option.0));
            assert forall|key: Seq<char>| #[trigger]
                has_key(doc, key) <==> (walked(options, n, key) && !is_reserved(key)) || (ordered
                    && key == attribute) by {
                lemma_walked_step(options, n, key);
                if key != option.0 {
                    assert(has_key(doc, key) == has_key(before, key));
                }
            }
            assert forall|j: int|
                0 <= j < n && !is_reserved((#[trigger] options[j]).0) && !(ordered && options[j].0
                    == attribute) implies value_of(doc, options[j].0) == ValueView::Text(
                options[j].1,
            ) by {
                if j < n - 1 {
                    assert(walked(options, n - 1, options[j].0));
                    assert(has_key(before, options[j].0));
                }
            }
            if ordered && !gives_text(options, attribute) {
                assert(has_key(before, attribute));
            }
        }
    }
}

/// Carrying options over that ask for no ordering puts nothing but texts into the
/// document.
pub proof fn lemma_carried_over_are_texts(options: Seq<(Seq<char>, Seq<char>)>, n: int)
    requires
        distinct_keys(options),
        !asks_ordering(options),
        0 <= n <= options.len(),
    ensures
        orders_nothing(carried_over(options, n)),
    decreases n,
{
    if n > 0 {
        lemma_carried_over_are_texts(options, n - 1);
        lemma_index_of_unique(options, n - 1);
        let before = carried_over(options, n - 1);
        let after = carried_over(options, n);
        let option = options[n - 1];
        if !is_reserved(option.0) {
            assert forall|i: int| 0 <= i < after.len() implies (#[trigger] after[i]).1 is Text by {
                if i < before.len() && after[i] != (option.0, ValueView::Text(option.1)) {
                    assert(after[i] == before[i]);
                }
            }
        }
    }
}

/// Carrying over options with reserved names alone gives the ordering asked for once
/// `sort` has been walked, and nothing before.
pub proof fn lemma_carried_over_reserved(options: Seq<(Seq<char>, Seq<char>)>, n: int)
    requires
        distinct_keys(options),
        only_reserved(options),
        0 <= n <= options.len(),
    ensures
        carried_over(options, n) == if walked(options, n, sort_name()) {
            ordering(options)
        } else {
            Seq::empty()
        },
    decreases n,
{
    if n > 0 {
        lemma_carried_over_reserved(options, n - 1);
        lemma_index_of_unique(options, n - 1);
        lemma_walked_step(options, n, sort_name());
        let before = carried_over(options, n - 1);
        let option = options[n - 1];
        assert(is_reserved(option.0));
        if option.0 == sort_name() {
            if walked(options, n - 1, sort_name()) {
                let j = choose|j: int|
                    0 <= j < n - 1 && j < options.len() && (#[trigger] options[j]).0
                        == sort_name();
                assert(options[j].0 != options[n - 1].0);
            }
            assert(before =~= Seq::<(Seq<char>, ValueView)>::empty());
            assert(!has_key(before, ordered_attribute(options)));
            assert(carried_over(options, n) =~= ordering(options));
        }
    }
}

/// What the sort document of a list request holds, by name: a text under the name of every
/// option other than `field` and `sort`, with that option's value; where `sort` is `asc`
/// or `desc`, 1 or -1 under the attribute that `field` names; and nothing else. Where
/// another option has that attribute's name, one of the two stands under it.
pub proof fn lemma_sort_document(options: Seq<(Seq<char>, Seq<char>)>)
    requires
        distinct_keys(options),
    ensures
        distinct_keys(sort_document(options)),
        forall|key: Seq<char>| #[trigger]
            has_key(sort_document(options), key) <==> gives_text(options, key) || (asks_ordering(
                options,
            ) && key == ordered_attribute(options)),
        forall|name: Seq<char>|
            gives_text(options, name) && !(asks_ordering(options) && name == ordered_attribute(
                options,
            )) ==> #[trigger] value_of(sort_document(options), name) == ValueView::Text(
                value_of(options, name),
            ),
        asks_ordering(options) && !gives_text(options, ordered_attribute(options)) ==> value_of(
            sort_document(options),
            ordered_attribute(options),
        ) == ValueView::Int32(direction(value_of(options, sort_name())).unwrap()),
{
    let n = options.len() as int;
    let doc = sort_document(options);
    lemma_carried_over(options, n);
    assert forall|key: Seq<char>| walked(options, n, key) == has_key(options, key) by {
        if has_key(options, key) {
            let j = index_of(options, key);
            assert(options[j].0 == key);
        }
    }
    assert forall|name: Seq<char>|
        gives_text(options, name) && !(asks_ordering(options) && name == ordered_attribute(
            options,
        )) implies #[trigger] value_of(doc, name) == ValueView::Text(value_of(options, name)) by {
        let j = index_of(options, name);
        assert(options[j].0 == name);
    }
}

/// The order in which the options of a list request are walked does not change what the
/// sort document holds under each name, unless another option has the name of the ordered
/// attribute.
pub proof fn lemma_walk_order_does_not_matter(
    a: Seq<(Seq<char>, Seq<char>)>,
    b: Seq<(Seq<char>, Seq<char>)>,
)
    requires
        distinct_keys(a),
        distinct_keys(b),
        same_options(a, b),
        loadable(a),
        !(asks_ordering(a) && gives_text(a, ordered_attribute(a))),
    ensures
        same_entries(sort_document(a), sort_document(b)),
{
    lemma_sort_document(a);
    lemma_sort_document(b);
    assert(has_key(a, sort_name()) == has_key(b, sort_name()));
    assert(has_key(a, field_name()) == has_key(b, field_name()));
    assert(asks_ordering(a) == asks_ordering(b));
    if asks_ordering(a) {
        assert(ordered_attribute(a) == ordered_attribute(b));
    }
    let da = sort_document(a);
    let db = sort_document(b);
    assert forall|key: Seq<char>|
        #![trigger has_key(da, key)]
        #![trigger has_key(db, key)]
        has_key(da, key) == has_key(db, key) && (has_key(da, key) ==> value_of(da, key)
            == value_of(db, key)) by {
        assert(has_key(a, key) == has_key(b, key));
        assert(gives_text(a, key) == gives_text(b, key));
    }
}

/// Where another option has the name of the ordered attribute, the one of the two that
/// has been walked later, `sort` or that option, decides what stands under the name after
/// the first `n` options.
pub proof fn lemma_carried_over_later_decides(options: Seq<(Seq<char>, Seq<char>)>, n: int)
    requires
        distinct_keys(options),
        asks_ordering(options),
        gives_text(options, ordered_attribute(options)),
        0 <= n <= options.len(),
    ensures
        ({
            let at_sort = index_of(options, sort_name());
            let at_other = index_of(options, ordered_attribute(options));
            let held = value_of(carried_over(options, n), ordered_attribute(options));
            &&& at_other < n && (at_sort >= n || at_sort < at_other) ==> held == ValueView::Text(
                value_of(options, ordered_attribute(options)),
            )
            &&& at_sort < n && (at_other >= n || at_other < at_sort) ==> held == ValueView::Int32(
                direction(value_of(options, sort_name())).unwrap(),
            )
        }),
    decreases n,
{
    let attribute = ordered_attribute(options);
    let at_sort = index_of(options, sort_name());
    let at_other = index_of(options, attribute);
    assert(0 <= at_sort < options.len() && options[at_sort].0 == sort_name());
    assert(0 <= at_other < options.len() && options[at_other].0 == attribute);
    if n > 0 {
        lemma_carried_over_later_decides(options, n - 1);
        lemma_carried_over(options, n - 1);
        lemma_index_of_unique(options, n - 1);
        let before = carried_over(options, n - 1);
        let option = options[n - 1];
        if option.0 == sort_name() {
            lemma_put(
                before,
                attribute,
                ValueView::Int32(direction(value_of(options, sort_name())).unwrap()),
            );
        } else if !is_reserved(option.0) {
            lemma_put(before, option.0, ValueView::Text(option.1));
            if option.0 != attribute {
                if at_other < n {
                    assert(walked(options, n - 1, attribute));
                }
                if at_sort < n {
                    assert(walked(options, n - 1, sort_name()));
                }
            }
        }
    }
}

/// Where another option has the name of the ordered attribute, the sort document holds
/// under that name what was walked later: the direction where `sort` was, the other
/// option's text where that option was.
pub proof fn lemma_later_option_decides(options: Seq<(Seq<char>, Seq<char>)>)
    requires
        distinct_keys(options),
        asks_ordering(options),
        gives_text(options, ordered_attribute(options)),
    ensures
        value_of(sort_document(options), ordered_attribute(options)) == if index_of(
            options,
            sort_name(),
        ) < index_of(options, ordered_attribute(options)) {
            ValueView::Text(value_of(options, ordered_attribute(options)))
        } else {
            ValueView::Int32(direction(value_of(options, sort_name())).unwrap())
        },
{
    let at_sort = index_of(options, sort_name());
    let at_other = index_of(options, ordered_attribute(options));
    assert(0 <= at_sort < options.len() && options[at_sort].0 == sort_name());
    assert(0 <= at_other < options.len() && options[at_other].0 == ordered_attribute(options));
    lemma_carried_over_later_decides(options, options.len() as int);
}

/// A list request that gives only `field` and `sort` is sorted on the named attribute
/// alone: ascending for `asc`, descending for `desc`, and not at all for any other value
/// of `sort` or where `sort` is left out.
pub proof fn lemma_sort_on_field(options: Seq<(Seq<char>, Seq<char>)>)
    requires
        distinct_keys(options),
        only_reserved(options),
    ensures
        sort_document(options) == ordering(options),
        has_key(options, sort_name()) && value_of(options, sort_name()) == "asc"@
            ==> sort_document(options) == seq![(ordered_attribute(options), ValueView::Int32(1i32))],
        has_key(options, sort_name()) && value_of(options, sort_name()) == "desc"@
            ==> sort_document(options) == seq![
            (ordered_attribute(options), ValueView::Int32(-1i32)),
        ],
        !asks_ordering(options) ==> sort_document(options) == Seq::<
            (Seq<char>, ValueView),
        >::empty(),
{
    reveal_strlit("asc");
    reveal_strlit("desc");
    assert("asc"@ != "desc"@) by {
        assert("asc"@.len() == 3 && "desc"@.len() == 4);
    }
    let n = options.len() as int;
    lemma_carried_over_reserved(options, n);
    if has_key(options, sort_name()) {
        let j = index_of(options, sort_name());
        assert(options[j].0 == sort_name());
        assert(walked(options, n, sort_name()));
    }
}

/// Where the options ask for no ordering, because `sort` is left out or has a value other
/// than `asc` and `desc`, the sort document holds no ordering, whatever else the options
/// give.
pub proof fn lemma_no_ordering_without_sort(options: Seq<(Seq<char>, Seq<char>)>)
    requires
        distinct_keys(options),
        !asks_ordering(options),
    ensures
        orders_nothing(sort_document(options)),
{
    lemma_carried_over_are_texts(options, options.len() as int);
}

} // verus!
