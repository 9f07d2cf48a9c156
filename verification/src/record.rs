//! The values that the store holds.

use vstd::prelude::*;
use vstd::std_specs::cmp::PartialEqSpecImpl;

verus! {

/// A stored value: a string, or an ordered list of values.
#[derive(Debug, Eq, Hash)]
pub enum Record {
    Str(String),
    List(Vec<Record>),
}

/// The mathematical value of a [`Record`].
pub ghost enum RecordView {
    Str(Seq<char>),
    List(Seq<RecordView>),
}

impl View for Record {
    type V = RecordView;

    open spec fn view(&self) -> RecordView
        decreases self,
    {
        match self {
            Record::Str(text) => RecordView::Str(text@),
            Record::List(items) => RecordView::List(
                Seq::new(
                    items@.len(),
                    |i: int|
                        if 0 <= i < items@.len() {
                            items@[i].view()
                        } else {
                            RecordView::List(Seq::empty())
                        },
                ),
            ),
        }
    }
}

impl DeepView for Record {
    type V = RecordView;

    open spec fn deep_view(&self) -> RecordView {
        self.view()
    }
}

impl Clone for Record {
    /// A deep copy: the whole nested structure is built anew.
    fn clone(&self) -> (copy: Record)
        ensures
            copy@ == self@,
        decreases self,
    {
        match self {
            Record::Str(text) => Record::Str(text.clone()),
            Record::List(items) => {
                let mut copies: Vec<Record> = Vec::new();
                let mut i: usize = 0;
                while i < items.len()
                    invariant
                        *self == Record::List(*items),
                        i <= items.len(),
                        copies.len() == i,
                        forall|j: int| 0 <= j < i ==> copies@[j]@ == items@[j]@,
                    decreases items.len() - i,
                {
                    assert(decreases_to!(self => items@[i as int])) by {
                        assert(decreases_to!(self => self->List_0));
                        assert(decreases_to!(self->List_0 => self->List_0@));
                        assert(decreases_to!(self->List_0@ => self->List_0@[i as int]));
                    }
                    let copy = items[i].clone();
                    copies.push(copy);
                    i += 1;
                }
                let list = Record::List(copies);
                assert(list@->List_0 =~= self@->List_0);
                list
            },
        }
    }
}

impl PartialEq for Record {
    /// Structural equality: two records are equal when they hold the same
    /// value, however they were built.
    fn eq(&self, other: &Record) -> (equal: bool)
        decreases self,
    {
        match (self, other) {
            (Record::Str(text), Record::Str(other_text)) => *text == *other_text,
            (Record::List(items), Record::List(other_items)) => {
                if items.len() != other_items.len() {
                    assert(self@->List_0.len() != other@->List_0.len());
                    return false;
                }
                let mut i: usize = 0;
                while i < items.len()
                    invariant
                        *self == Record::List(*items),
                        *other == Record::List(*other_items),
                        items.len() == other_items.len(),
                        i <= items.len(),
                        forall|j: int| 0 <= j < i ==> items@[j]@ == other_items@[j]@,
                    decreases items.len() - i,
                {
                    assert(decreases_to!(self => items@[i as int])) by {
                        assert(decreases_to!(self => self->List_0));
                        assert(decreases_to!(self->List_0 => self->List_0@));
                        assert(decreases_to!(self->List_0@ => self->List_0@[i as int]));
                    }
                    if !items[i].eq(&other_items[i]) {
                        assert(self@->List_0[i as int] != other@->List_0[i as int]);
                        return false;
                    }
                    i += 1;
                }
                assert(self@->List_0 =~= other@->List_0);
                true
            },
            _ => false,
        }
    }
}

impl PartialEqSpecImpl for Record {
    open spec fn obeys_eq_spec() -> bool {
        true
    }

    open spec fn eq_spec(&self, other: &Record) -> bool {
        self@ == other@
    }
}

/// The record that holds the string `item`.
pub fn make_record(item: &String) -> (record: Record)
    ensures
        record@ == RecordView::Str(item@),
{
    Record::Str(item.clone())
}

} // verus!
