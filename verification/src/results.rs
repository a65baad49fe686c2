//! The result model: an ordered sequence of items, where an item is either a
//! text token or a nested group of items.
//!
//! Plain sequencing flattens children's items into the parent's sequence;
//! group-wrapping is explicit and produced only by the `Group` modifier.  As
//! an additive capability, a name can be associated with an index into the
//! item list for keyed lookup; this does not change matching semantics.

use vstd::prelude::*;

verus! {

/// One result item: a matched text token, or one level of nesting.
#[derive(Debug, PartialEq, Eq)]
pub enum Item {
    Token(String),
    Group(Vec<Item>),
}

/// The mathematical shape of an [`Item`].
pub enum SpecItem {
    Token(Seq<char>),
    Group(Seq<SpecItem>),
}

impl View for Item {
    type V = SpecItem;

    open spec fn view(&self) -> SpecItem
        decreases self, 0nat,
    {
        match self {
            Item::Token(s) => SpecItem::Token(s@),
            Item::Group(v) => SpecItem::Group(items_view_from(v@, 0)),
        }
    }
}

/// The views of the items of `s` from index `i` on.
pub open spec fn items_view_from(s: Seq<Item>, i: int) -> Seq<SpecItem>
    decreases s, s.len() - i,
{
    if i < 0 || i >= s.len() {
        Seq::empty()
    } else {
        seq![s[i]@] + items_view_from(s, i + 1)
    }
}

/// The views of all items of `s`, in order.
pub open spec fn items_view(s: Seq<Item>) -> Seq<SpecItem> {
    items_view_from(s, 0)
}

/// The token texts of `items` in depth-first order, groups flattened.
pub open spec fn flat_tokens(items: Seq<SpecItem>) -> Seq<Seq<char>> {
    flat_tokens_from(items, 0)
}

/// The token texts of the items of `items` from index `i` on.
pub open spec fn flat_tokens_from(items: Seq<SpecItem>, i: int) -> Seq<Seq<char>>
    decreases items, items.len() - i,
{
    if i < 0 || i >= items.len() {
        Seq::empty()
    } else {
        flat_tokens_of_item(items[i]) + flat_tokens_from(items, i + 1)
    }
}

/// The token texts contained in one item.
pub open spec fn flat_tokens_of_item(item: SpecItem) -> Seq<Seq<char>>
    decreases item, 0nat,
{
    match item {
        SpecItem::Token(t) => seq![t],
        SpecItem::Group(g) => flat_tokens_from(g, 0),
    }
}

/// The index the name `name` is associated with, if any; a later association
/// for the same name wins over an earlier one.
pub open spec fn lookup_named(named: Seq<(Seq<char>, int)>, name: Seq<char>) -> Option<int>
    decreases named.len(),
{
    if named.len() == 0 {
        None
    } else if named.last().0 == name {
        Some(named.last().1)
    } else {
        lookup_named(named.drop_last(), name)
    }
}

/// The mathematical view of a [`ParseResults`] value.
pub struct SpecResults {
    pub items: Seq<SpecItem>,
    pub named: Seq<(Seq<char>, int)>,
}

/// Parse results: an insertion-ordered sequence of items, with optional
/// name-to-index associations for keyed lookup.
#[derive(Debug)]
pub struct ParseResults {
    items: Vec<Item>,
    named: Vec<(String, usize)>,
}

impl View for ParseResults {
    type V = SpecResults;

    closed spec fn view(&self) -> SpecResults {
        SpecResults {
            items: items_view(self.items@),
            named: self.named@.map_values(|p: (String, usize)| (p.0@, p.1 as int)),
        }
    }
}

impl ParseResults {
    /// An empty result set.
    pub fn new() -> (r: ParseResults)
        ensures
            r@.items == Seq::<SpecItem>::empty(),
            r@.named == Seq::<(Seq<char>, int)>::empty(),
    {
        let r = ParseResults { items: Vec::new(), named: Vec::new() };
        proof {
            assert(r@.items =~= Seq::<SpecItem>::empty());
            assert(r@.named =~= Seq::<(Seq<char>, int)>::empty());
        }
        r
    }

    /// A result set holding the single token `s`.
    pub fn from_single(s: &str) -> (r: ParseResults)
        ensures
            r@.items == seq![SpecItem::Token(s@)],
            r@.named == Seq::<(Seq<char>, int)>::empty(),
    {
        let mut r = ParseResults::new();
        r.push(s);
        r
    }

    /// A result set holding the given tokens, in order.
    pub fn from_vec(tokens: Vec<String>) -> (r: ParseResults)
        ensures
            r@.items == tokens@.map_values(|t: String| SpecItem::Token(t@)),
            r@.named == Seq::<(Seq<char>, int)>::empty(),
    {
        let ghost goal = tokens@.map_values(|t: String| SpecItem::Token(t@));
        let mut r = ParseResults::new();
        let mut i: usize = 0;
        while i < tokens.len()
            invariant
                i <= tokens.len(),
                r@.items == goal.subrange(0, i as int),
                r@.named == Seq::<(Seq<char>, int)>::empty(),
                goal == tokens@.map_values(|t: String| SpecItem::Token(t@)),
            decreases tokens.len() - i,
        {
            let ghost prev = r@.items;
            r.push(tokens[i].as_str());
            proof {
                assert(r@.items =~= goal.subrange(0, i + 1));
            }
            i = i + 1;
        }
        proof {
            assert(goal.subrange(0, tokens@.len() as int) =~= goal);
        }
        r
    }

    /// A result set whose single item is a group wrapping the items of
    /// `inner`; `inner`'s name associations are not carried over.
    pub fn from_group(inner: ParseResults) -> (r: ParseResults)
        ensures
            r@.items == seq![SpecItem::Group(inner@.items)],
            r@.named == Seq::<(Seq<char>, int)>::empty(),
    {
        let ghost inner_items = inner@.items;
        let g = Item::Group(inner.items);
        let ghost gval = g;
        let mut items: Vec<Item> = Vec::new();
        items.push(g);
        let r = ParseResults { items, named: Vec::new() };
        proof {
            assert(gval@ == SpecItem::Group(inner_items));
            assert(r.items@.len() == 1);
            assert(r.items@[0] == gval);
            assert(items_view_from(r.items@, 0) == seq![r.items@[0]@] + items_view_from(
                r.items@,
                1,
            ));
            assert(items_view_from(r.items@, 1) == Seq::<SpecItem>::empty());
            assert(r@.items =~= seq![SpecItem::Group(inner_items)]);
            assert(r@.named =~= Seq::<(Seq<char>, int)>::empty());
        }
        r
    }

    /// Append the token `token`.
    pub fn push(&mut self, token: &str)
        ensures
            final(self)@.items == old(self)@.items + seq![SpecItem::Token(token@)],
            final(self)@.named == old(self)@.named,
    {
        self.push_string(token.to_owned());
    }

    /// Append the token `token`, taking ownership.
    pub fn push_string(&mut self, token: String)
        ensures
            final(self)@.items == old(self)@.items + seq![SpecItem::Token(token@)],
            final(self)@.named == old(self)@.named,
    {
        let ghost prev = self.items@;
        self.items.push(Item::Token(token));
        proof {
            lemma_items_view_push(prev, self.items@.last());
            assert(final(self)@.named =~= old(self)@.named);
        }
    }

    /// Append the item `item`.
    pub fn push_item(&mut self, item: Item)
        ensures
            final(self)@.items == old(self)@.items + seq![item@],
            final(self)@.named == old(self)@.named,
    {
        let ghost prev = self.items@;
        self.items.push(item);
        proof {
            lemma_items_view_push(prev, self.items@.last());
            assert(final(self)@.named =~= old(self)@.named);
        }
    }

    /// Associate `name` with the item index `index`; a later association for
    /// the same name wins over an earlier one.
    pub fn set_name(&mut self, name: &str, index: usize)
        ensures
            final(self)@.items == old(self)@.items,
            final(self)@.named == old(self)@.named + seq![(name@, index as int)],
    {
        self.named.push((name.to_owned(), index));
        proof {
            assert(final(self)@.named =~= old(self)@.named + seq![(name@, index as int)]);
        }
    }

    /// Append all of `other`'s items after this value's own, shifting
    /// `other`'s name associations by the number of items already present.
    pub fn extend(&mut self, other: ParseResults)
        requires
            forall|j: int|
                0 <= j < other@.named.len() ==> other@.named[j].1 + old(self)@.items.len()
                    <= usize::MAX,
        ensures
            final(self)@.items == old(self)@.items + other@.items,
            final(self)@.named == old(self)@.named + other@.named.map_values(
                (|p: (Seq<char>, int)| (p.0, p.1 + old(self)@.items.len())),
            ),
    {
        let offset = self.items.len();
        proof {
            lemma_items_view_len(self.items@);
        }
        let ghost shifted = other@.named.map_values(
            (|p: (Seq<char>, int)| (p.0, p.1 + old(self)@.items.len())),
        );
        let ParseResults { items: other_items, named: other_named } = other;
        let ghost other_items_seq = other_items@;
        let mut i: usize = 0;
        let other_items_len = other_items.len();
        let mut other_items_vec = other_items;
        while i < other_items_len
            invariant
                i <= other_items_len,
                other_items_len == other_items_seq.len(),
                other_items_vec@ == other_items_seq,
                self@.items == old(self)@.items + items_view(other_items_seq).subrange(
                    0,
                    i as int,
                ),
                self@.named == old(self)@.named,
            decreases other_items_len - i,
        {
            let ghost prev = self.items@;
            let item = clone_item(&other_items_vec[i]);
            self.items.push(item);
            proof {
                lemma_items_view_push(prev, self.items@.last());
                lemma_items_view_index(other_items_seq, i as int);
                assert(self@.items =~= old(self)@.items + items_view(other_items_seq).subrange(
                    0,
                    i + 1,
                ));
            }
            i = i + 1;
        }
        proof {
            lemma_items_view_len(other_items_seq);
            assert(items_view(other_items_seq).subrange(
                0,
                items_view(other_items_seq).len() as int,
            ) =~= items_view(other_items_seq));
        }
        proof {
            let m = other_named@.map_values((|p: (String, usize)| (p.0@, p.1 as int + offset)));
            assert forall|k: int| 0 <= k < other_named@.len() implies other_named@[k].1 + offset
                <= usize::MAX by {
                assert(other@.named[k] == (other_named@[k].0@, other_named@[k].1 as int));
            }
            assert(m.subrange(0, 0) =~= Seq::<(Seq<char>, int)>::empty());
            assert(self@.named =~= old(self)@.named + m.subrange(0, 0));
        }
        let mut j: usize = 0;
        let other_named_len = other_named.len();
        while j < other_named_len
            invariant
                j <= other_named_len,
                other_named_len == other_named@.len(),
                offset == old(self)@.items.len(),
                forall|k: int|
                    0 <= k < other_named@.len() ==> other_named@[k].1 + offset <= usize::MAX,
                self@.items == old(self)@.items + items_view(other_items_seq),
                self@.named == old(self)@.named + other_named@.map_values(
                    (|p: (String, usize)| (p.0@, p.1 as int + offset)),
                ).subrange(0, j as int),
            decreases other_named_len - j,
        {
            let name = other_named[j].0.clone();
            let idx = other_named[j].1;
            let ghost pushed = (name@, idx + offset);
            let ghost prev_named = self.named@;
            self.named.push((name, idx + offset));
            proof {
                let m = other_named@.map_values(
                    (|p: (String, usize)| (p.0@, p.1 as int + offset)),
                );
                assert(m[j as int] == (other_named@[j as int].0@, other_named@[j as int].1 as int
                    + offset));
                assert(self.named@.len() == prev_named.len() + 1);
                assert(self.named@.last().0@ == pushed.0);
                assert(self.named@.last().1 == idx + offset);
                assert(forall|t: int|
                    0 <= t < prev_named.len() ==> self.named@[t] == prev_named[t]);
                assert(pushed.0 == other_named@[j as int].0@);
                assert(self@.named =~= (old(self)@.named + m.subrange(0, j as int)).push(
                    m[j as int],
                ));
                assert(old(self)@.named + m.subrange(0, j + 1) =~= (old(self)@.named + m.subrange(
                    0,
                    j as int,
                )).push(m[j as int]));
                assert(self@.named == old(self)@.named + m.subrange(0, j + 1));
            }
            j = j + 1;
        }
        proof {
            let m = other_named@.map_values((|p: (String, usize)| (p.0@, p.1 as int + offset)));
            assert(m.subrange(0, m.len() as int) =~= m);
            assert(m =~= shifted);
        }
    }

    /// All token texts, in depth-first order (groups flattened).
    pub fn as_list(&self) -> (r: Vec<String>)
        ensures
            r.deep_view() == flat_tokens(self@.items),
    {
        let mut out: Vec<String> = Vec::new();
        append_tokens(&self.items, 0, &mut out);
        proof {
            assert(Seq::<Seq<char>>::empty() + flat_tokens_from(items_view(self.items@), 0)
                =~= flat_tokens(self@.items));
        }
        out
    }

    /// The items themselves, by reference.
    pub fn as_vec(&self) -> (r: &Vec<Item>)
        ensures
            items_view(r@) == self@.items,
    {
        &self.items
    }

    /// The item at `index`, if it is within range and is a token.
    pub fn get(&self, index: usize) -> (r: Option<&String>)
        ensures
            match r {
                Some(s) => index < self@.items.len() && self@.items[index as int]
                    == SpecItem::Token(s@),
                None => index >= self@.items.len() || !(self@.items[index as int] matches
                    SpecItem::Token(_)),
            },
    {
        proof {
            lemma_items_view_len(self.items@);
        }
        if index < self.items.len() {
            proof {
                lemma_items_view_index(self.items@, index as int);
            }
            match &self.items[index] {
                Item::Token(s) => Some(s),
                Item::Group(_) => None,
            }
        } else {
            None
        }
    }

    /// The token the name `name` is associated with: the index of the latest
    /// association for `name`, if that index holds a token.
    pub fn get_named(&self, name: &str) -> (r: Option<&String>)
        ensures
            match lookup_named(self@.named, name@) {
                Some(i) => match r {
                    Some(s) => 0 <= i < self@.items.len() && self@.items[i] == SpecItem::Token(
                        s@,
                    ),
                    None => !(0 <= i < self@.items.len() && self@.items[i] matches
                        SpecItem::Token(_)),
                },
                None => r is None,
            },
    {
        proof {
            assert(self@.named.subrange(0, self.named@.len() as int) =~= self@.named);
        }
        let mut j = self.named.len();
        while j > 0
            invariant
                j <= self.named@.len(),
                lookup_named(self@.named, name@) == lookup_named(
                    self@.named.subrange(0, j as int),
                    name@,
                ),
            decreases j,
        {
            j = j - 1;
            proof {
                let whole = self@.named;
                let upto = whole.subrange(0, j + 1);
                assert(upto.len() == j + 1);
                assert(upto.last() == whole[j as int]);
                assert(upto.drop_last() =~= whole.subrange(0, j as int));
            }
            if str_eq(self.named[j].0.as_str(), name) {
                return self.get(self.named[j].1);
            }
        }
        proof {
            assert(self@.named.subrange(0, 0) =~= Seq::<(Seq<char>, int)>::empty());
        }
        None
    }

    /// The number of items (a group counts as one item).
    pub fn len(&self) -> (r: usize)
        ensures
            r == self@.items.len(),
    {
        proof {
            lemma_items_view_len(self.items@);
        }
        self.items.len()
    }

    /// Whether there are no items.
    pub fn is_empty(&self) -> (r: bool)
        ensures
            r == (self@.items.len() == 0),
    {
        self.len() == 0
    }
}

/// Compare two string slices character by character.
pub fn str_eq(a: &str, b: &str) -> (r: bool)
    ensures
        r == (a@ == b@),
{
    let la = a.unicode_len();
    let lb = b.unicode_len();
    if la != lb {
        proof {
            assert(a@ != b@) by {
                if a@ == b@ {
                    assert(a@.len() == b@.len());
                }
            }
        }
        return false;
    }
    let mut i: usize = 0;
    while i < la
        invariant
            i <= la,
            la == a@.len(),
            la == b@.len(),
            forall|k: int| 0 <= k < i ==> a@[k] == b@[k],
        decreases la - i,
    {
        if a.get_char(i) != b.get_char(i) {
            return false;
        }
        i = i + 1;
    }
    proof {
        assert(a@ =~= b@);
    }
    true
}

/// Clone one result item.
fn clone_item(item: &Item) -> (r: Item)
    ensures
        r@ == item@,
    decreases item, 0nat, 0nat,
{
    match item {
        Item::Token(s) => Item::Token(s.clone()),
        Item::Group(v) => {
            let cloned = clone_items(v, 0);
            proof {
                lemma_items_view_len(v@);
                assert(items_view(cloned@) =~= items_view(v@).subrange(
                    0,
                    items_view(v@).len() as int,
                ));
                assert(items_view(v@).subrange(0, items_view(v@).len() as int) =~= items_view(
                    v@,
                ));
            }
            Item::Group(cloned)
        },
    }
}

/// Clone the items of `v` from index `from` on.
fn clone_items(v: &Vec<Item>, from: usize) -> (r: Vec<Item>)
    requires
        from <= v@.len(),
    ensures
        items_view(r@) == items_view(v@).subrange(from as int, v@.len() as int),
    decreases v, v@.len() - from, 1nat,
{
    proof {
        lemma_items_view_len(v@);
    }
    if from < v.len() {
        let first = clone_item(&v[from]);
        let ghost firstv = first;
        let mut rest = clone_items(v, from + 1);
        let ghost rest_seq = rest@;
        rest.insert(0, first);
        proof {
            let goal = items_view(v@).subrange(from as int, v@.len() as int);
            rest_seq.insert_ensures(0, firstv);
            lemma_items_view_len(rest@);
            lemma_items_view_len(rest_seq);
            assert forall|k: int| 0 <= k < rest@.len() implies items_view(rest@)[k] == goal[k] by {
                lemma_items_view_index(rest@, k);
                lemma_items_view_index(v@, from + k);
                assert(goal[k] == items_view(v@)[from + k]);
                if k == 0 {
                    assert(rest@[0] == firstv);
                } else {
                    assert(rest@[k] == rest_seq[k - 1]);
                    lemma_items_view_index(rest_seq, k - 1);
                    assert(items_view(rest_seq)[k - 1] == items_view(v@).subrange(
                        from + 1,
                        v@.len() as int,
                    )[k - 1]);
                }
            }
            assert(items_view(rest@) =~= goal);
        }
        rest
    } else {
        let out: Vec<Item> = Vec::new();
        proof {
            assert(items_view(out@) == Seq::<SpecItem>::empty());
            assert(items_view(out@) =~= items_view(v@).subrange(from as int, v@.len() as int));
        }
        out
    }
}

/// Append the token texts of the items of `items` from index `from` on to
/// `out`, in depth-first order.
fn append_tokens(items: &Vec<Item>, from: usize, out: &mut Vec<String>)
    ensures
        final(out).deep_view() == old(out).deep_view() + flat_tokens_from(
            items_view(items@),
            from as int,
        ),
    decreases items, items@.len() - from, 0nat,
{
    proof {
        lemma_items_view_len(items@);
    }
    if from < items.len() {
        proof {
            lemma_items_view_index(items@, from as int);
        }
        append_item_tokens(&items[from], out);
        append_tokens(items, from + 1, out);
        proof {
            assert(out.deep_view() =~= old(out).deep_view() + flat_tokens_from(
                items_view(items@),
                from as int,
            ));
        }
    } else {
        proof {
            assert(out.deep_view() =~= old(out).deep_view() + flat_tokens_from(
                items_view(items@),
                from as int,
            ));
        }
    }
}

/// Append the token texts of one item to `out`.
fn append_item_tokens(item: &Item, out: &mut Vec<String>)
    ensures
        final(out).deep_view() == old(out).deep_view() + flat_tokens_of_item(item@),
    decreases item, 0nat, 1nat,
{
    match item {
        Item::Token(s) => {
            out.push(s.clone());
            proof {
                assert(out.deep_view() =~= old(out).deep_view() + flat_tokens_of_item(item@));
            }
        },
        Item::Group(v) => {
            append_tokens(v, 0, out);
        },
    }
}

/// The view of a pushed sequence extends the view of the original.
proof fn lemma_items_view_push(s: Seq<Item>, item: Item)
    ensures
        items_view(s.push(item)) == items_view(s) + seq![item@],
{
    lemma_items_view_from_push(s, item, 0);
}

proof fn lemma_items_view_from_push(s: Seq<Item>, item: Item, i: int)
    requires
        0 <= i <= s.len(),
    ensures
        items_view_from(s.push(item), i) == items_view_from(s, i) + seq![item@],
    decreases s.len() - i,
{
    let t = s.push(item);
    assert(t.len() == s.len() + 1);
    if i == s.len() {
        assert(t[i] == item);
        assert(items_view_from(t, i) == seq![t[i]@] + items_view_from(t, i + 1));
        assert(items_view_from(t, i + 1) == Seq::<SpecItem>::empty());
        assert(items_view_from(s, i) == Seq::<SpecItem>::empty());
        assert(items_view_from(t, i) =~= items_view_from(s, i) + seq![item@]);
    } else {
        lemma_items_view_from_push(s, item, i + 1);
        assert(t[i] == s[i]);
        assert(items_view_from(t, i) == seq![t[i]@] + items_view_from(t, i + 1));
        assert(items_view_from(s, i) == seq![s[i]@] + items_view_from(s, i + 1));
        assert(items_view_from(t, i) =~= items_view_from(s, i) + seq![item@]);
    }
}

/// The item view preserves length.
proof fn lemma_items_view_len(s: Seq<Item>)
    ensures
        items_view(s).len() == s.len(),
{
    lemma_items_view_from_len(s, 0);
}

proof fn lemma_items_view_from_len(s: Seq<Item>, i: int)
    requires
        0 <= i <= s.len(),
    ensures
        items_view_from(s, i).len() == s.len() - i,
    decreases s.len() - i,
{
    if i < s.len() {
        lemma_items_view_from_len(s, i + 1);
        assert(items_view_from(s, i) == seq![s[i]@] + items_view_from(s, i + 1));
        assert((seq![s[i]@] + items_view_from(s, i + 1)).len() == 1 + items_view_from(
            s,
            i + 1,
        ).len());
    } else {
        assert(items_view_from(s, i) == Seq::<SpecItem>::empty());
    }
}

/// The item view maps each index to the view of the item at that index.
proof fn lemma_items_view_index(s: Seq<Item>, k: int)
    requires
        0 <= k < s.len(),
    ensures
        items_view(s).len() == s.len(),
        items_view(s)[k] == s[k]@,
{
    lemma_items_view_len(s);
    lemma_items_view_from_index(s, 0, k);
}

proof fn lemma_items_view_from_index(s: Seq<Item>, i: int, k: int)
    requires
        0 <= i <= k < s.len(),
    ensures
        items_view_from(s, i).len() == s.len() - i,
        items_view_from(s, i)[k - i] == s[k]@,
    decreases k - i,
{
    lemma_items_view_from_len(s, i);
    assert(items_view_from(s, i) == seq![s[i]@] + items_view_from(s, i + 1));
    if i < k {
        lemma_items_view_from_index(s, i + 1, k);
        assert(items_view_from(s, i)[k - i] == items_view_from(s, i + 1)[k - i - 1]);
    } else {
        lemma_items_view_from_len(s, i + 1);
        assert(items_view_from(s, i)[0] == s[i]@);
    }
}

} // verus!
