//! The schema: an ordered list of field names with a type lookup keyed by
//! name, and the row transformer that applies it to input records.
//!
//! The order list keeps every declared occurrence of a name, duplicates
//! included; the lookup keeps, for each name, the type declared last. The
//! two are deliberately decoupled: a duplicated field name stays in the
//! output column list, each occurrence coerced under the name's last
//! declared type.

use vstd::prelude::*;

use crate::coerce::{coerce, spec_coerce, CellOut, CellV};
use crate::types::DataType;

verus! {

/// The type lookup built from name/type pairs taken in order: a later
/// pair with the same name overwrites an earlier one.
pub open spec fn kv_map(names: Seq<Seq<char>>, types: Seq<DataType>) -> Map<Seq<char>, DataType>
    recommends
        names.len() == types.len(),
    decreases names.len(),
{
    if names.len() == 0 {
        Map::empty()
    } else {
        kv_map(names.drop_last(), types.drop_last()).insert(names.last(), types.last())
    }
}

/// The index of the first occurrence of `n` in `h`, or one less than zero
/// when `h` does not hold `n`.
pub open spec fn first_pos(h: Seq<Seq<char>>, n: Seq<char>) -> int
    decreases h.len(),
{
    if h.len() == 0 {
        -1
    } else if h[0] == n {
        0
    } else {
        let r = first_pos(h.drop_first(), n);
        if r == -1 {
            -1
        } else {
            r + 1
        }
    }
}

/// Every name paired in the pairs is a key of the lookup.
pub proof fn lemma_kv_map_contains(names: Seq<Seq<char>>, types: Seq<DataType>, i: int)
    requires
        names.len() == types.len(),
        0 <= i < names.len(),
    ensures
        kv_map(names, types).contains_key(names[i]),
    decreases names.len(),
{
    if i < names.len() - 1 {
        lemma_kv_map_contains(names.drop_last(), types.drop_last(), i);
    }
}

/// A position before which `n` does not occur, and at which it does, is
/// the first occurrence.
pub proof fn lemma_first_pos_found(h: Seq<Seq<char>>, n: Seq<char>, j: int)
    requires
        0 <= j < h.len(),
        h[j] == n,
        forall|k: int| 0 <= k < j ==> h[k] != n,
    ensures
        first_pos(h, n) == j,
    decreases j,
{
    if j > 0 {
        lemma_first_pos_found(h.drop_first(), n, j - 1);
    }
}

/// A name that occurs nowhere in `h` has no first occurrence.
pub proof fn lemma_first_pos_none(h: Seq<Seq<char>>, n: Seq<char>)
    requires
        forall|k: int| 0 <= k < h.len() ==> h[k] != n,
    ensures
        first_pos(h, n) == -1,
    decreases h.len(),
{
    if h.len() > 0 {
        lemma_first_pos_none(h.drop_first(), n);
    }
}

/// What one output cell holds: the first input column whose header name
/// matches the schema name at position `i` supplies the raw value (the
/// empty string when the record is shorter than the header), and the
/// name's declared type coerces it; a name absent from the header gives
/// the empty string outright.
pub open spec fn spec_cell(
    order: Seq<Seq<char>>,
    types: Map<Seq<char>, DataType>,
    header: Seq<Seq<char>>,
    record: Seq<Seq<char>>,
    i: int,
) -> CellV
    recommends
        0 <= i < order.len(),
        types.contains_key(order[i]),
{
    let j = first_pos(header, order[i]);
    if j == -1 {
        CellV::Ready(Seq::empty())
    } else {
        let raw = if j < record.len() {
            record[j]
        } else {
            Seq::empty()
        };
        spec_coerce(types[order[i]], raw)
    }
}

/// A schema: field names in declared order, each paired with its declared
/// type.
pub struct Schema {
    names: Vec<String>,
    types: Vec<DataType>,
}

impl Schema {
    /// The output column order: every declared field name, in declaration
    /// order, duplicates included.
    pub closed spec fn spec_order(&self) -> Seq<Seq<char>> {
        self.names.deep_view()
    }

    /// The type lookup: for each declared name, the type declared last.
    pub closed spec fn spec_types(&self) -> Map<Seq<char>, DataType> {
        kv_map(self.names.deep_view(), self.types@)
    }

    /// Well-formedness: every name in the order list is paired with a
    /// type.
    pub closed spec fn wf(&self) -> bool {
        self.names@.len() == self.types@.len()
    }

    /// An empty schema.
    pub fn new() -> (s: Schema)
        ensures
            s.wf(),
            s.spec_order() == Seq::<Seq<char>>::empty(),
            s.spec_types() == Map::<Seq<char>, DataType>::empty(),
    {
        let s = Schema { names: Vec::new(), types: Vec::new() };
        proof {
            assert(s.names.deep_view() =~= Seq::<Seq<char>>::empty());
        }
        s
    }

    /// Declares one more field: the name goes to the end of the order
    /// list, and its type overwrites whatever the name was mapped to
    /// before.
    pub fn add_field(&mut self, name: String, dt: DataType)
        requires
            old(self).wf(),
        ensures
            final(self).wf(),
            final(self).spec_order() == old(self).spec_order().push(name@),
            final(self).spec_types() == old(self).spec_types().insert(name@, dt),
    {
        let ghost old_names = self.names.deep_view();
        let ghost old_types = self.types@;
        self.names.push(name);
        self.types.push(dt);
        proof {
            assert(self.names.deep_view() =~= old_names.push(name@));
            assert(self.types@ =~= old_types.push(dt));
            assert(self.names.deep_view().drop_last() =~= old_names);
            assert(self.types@.drop_last() =~= old_types);
        }
    }

    /// How many output columns the schema declares.
    pub fn field_count(&self) -> (n: usize)
        ensures
            n == self.spec_order().len(),
    {
        self.names.len()
    }

    /// The declared field names, in output order.
    pub fn field_names(&self) -> (r: &Vec<String>)
        ensures
            r.deep_view() == self.spec_order(),
    {
        &self.names
    }

    /// The type declared last for `name`.
    pub fn lookup(&self, name: &String) -> (r: Option<DataType>)
        requires
            self.wf(),
        ensures
            (match r {
                Some(dt) => self.spec_types().contains_key(name@) && self.spec_types()[name@]
                    == dt,
                None => !self.spec_types().contains_key(name@),
            }),
    {
        let ghost all_names = self.names.deep_view();
        let ghost all_types = self.types@;
        let mut i = self.names.len();
        proof {
            assert(all_names.take(i as int) =~= all_names);
            assert(all_types.take(i as int) =~= all_types);
        }
        while i > 0
            invariant
                i <= self.names@.len(),
                self.wf(),
                all_names == self.names.deep_view(),
                all_types == self.types@,
                kv_map(all_names, all_types).contains_key(name@) == kv_map(
                    all_names.take(i as int),
                    all_types.take(i as int),
                ).contains_key(name@),
                kv_map(all_names, all_types).contains_key(name@) ==> kv_map(
                    all_names,
                    all_types,
                )[name@] == kv_map(all_names.take(i as int), all_types.take(i as int))[name@],
            decreases i,
        {
            proof {
                assert(all_names.take(i as int).drop_last() =~= all_names.take(i - 1));
                assert(all_types.take(i as int).drop_last() =~= all_types.take(i - 1));
                assert(all_names.take(i as int).last() == all_names[i - 1]);
            }
            if self.names[i - 1].eq(name) {
                proof {
                    assert(all_names[i - 1] == name@);
                    assert(kv_map(all_names.take(i as int), all_types.take(i as int)).contains_key(
                        name@,
                    ));
                }
                return Some(self.types[i - 1]);
            }
            proof {
                assert(all_names[i - 1] != name@);
            }
            i = i - 1;
        }
        proof {
            assert(all_names.take(0) =~= Seq::<Seq<char>>::empty());
            assert(all_types.take(0) =~= Seq::<DataType>::empty());
        }
        None
    }

    /// Transforms one input record into an output row: one cell per
    /// declared field name, in declared order, each filled as `spec_cell`
    /// says.
    pub fn transform_row(&self, header: &Vec<String>, record: &Vec<String>) -> (out: Vec<CellOut>)
        requires
            self.wf(),
        ensures
            out@.len() == self.spec_order().len(),
            forall|i: int|
                0 <= i < out@.len() ==> out@[i]@ == spec_cell(
                    self.spec_order(),
                    self.spec_types(),
                    header.deep_view(),
                    record.deep_view(),
                    i,
                ),
    {
        let n = self.names.len();
        let mut out: Vec<CellOut> = Vec::new();
        let mut i: usize = 0;
        while i < n
            invariant
                self.wf(),
                n == self.spec_order().len(),
                i <= n,
                out@.len() == i,
                forall|k: int|
                    0 <= k < i ==> out@[k]@ == spec_cell(
                        self.spec_order(),
                        self.spec_types(),
                        header.deep_view(),
                        record.deep_view(),
                        k,
                    ),
            decreases n - i,
        {
            let name = &self.names[i];
            proof {
                assert(name@ == self.spec_order()[i as int]);
            }
            let cell = match find_field(header, name) {
                Some(j) => {
                    proof {
                        lemma_first_pos_found(header.deep_view(), name@, j as int);
                        lemma_kv_map_contains(self.names.deep_view(), self.types@, i as int);
                    }
                    let dt = match self.lookup(name) {
                        Some(dt) => dt,
                        None => vstd::pervasive::unreached(),
                    };
                    if j < record.len() {
                        let c = coerce(&dt, record[j].as_str());
                        proof {
                            assert(record.deep_view()[j as int] == record@[j as int]@);
                        }
                        c
                    } else {
                        coerce(&dt, "")
                    }
                },
                None => {
                    proof {
                        lemma_first_pos_none(header.deep_view(), name@);
                    }
                    CellOut::Ready(String::new())
                },
            };
            proof {
                reveal_strlit("");
                assert(""@ =~= Seq::<char>::empty());
            }
            out.push(cell);
            i = i + 1;
        }
        out
    }
}

/// The position of the first input column whose header name matches
/// `name`.
fn find_field(header: &Vec<String>, name: &String) -> (r: Option<usize>)
    ensures
        (match r {
            Some(j) => j < header@.len() && header.deep_view()[j as int] == name@ && (forall|
                k: int,
            | 0 <= k < j ==> header.deep_view()[k] != name@),
            None => forall|k: int| 0 <= k < header@.len() ==> header.deep_view()[k] != name@,
        }),
{
    let n = header.len();
    let mut j: usize = 0;
    while j < n
        invariant
            n == header@.len(),
            j <= n,
            forall|k: int| 0 <= k < j ==> header.deep_view()[k] != name@,
        decreases n - j,
    {
        if header[j].eq(name) {
            proof {
                assert(header.deep_view()[j as int] == name@);
            }
            return Some(j);
        }
        proof {
            assert(header.deep_view()[j as int] != name@);
        }
        j = j + 1;
    }
    None
}

/// A field the input does not supply comes out empty: whenever the schema
/// name at position `i` occurs nowhere in the input header, the output
/// cell at position `i` is ready and empty, indistinguishable from a
/// failed coercion.
pub proof fn lemma_missing_field_blank(
    order: Seq<Seq<char>>,
    types: Map<Seq<char>, DataType>,
    header: Seq<Seq<char>>,
    record: Seq<Seq<char>>,
    i: int,
)
    requires
        0 <= i < order.len(),
        forall|k: int| 0 <= k < header.len() ==> header[k] != order[i],
    ensures
        spec_cell(order, types, header, record, i) == CellV::Ready(Seq::<char>::empty()),
{
    lemma_first_pos_none(header, order[i]);
}

} // verus!
