//! The node-table builder: reassembles a gateway's node table from the
//! consecutive pages the controller fetches.

use crate::pv::application::NodeTableResponseEntry;
use crate::pv::network::NodeAddress;
use crate::pv::{LongAddress, NodeID};
use std::collections::BTreeMap;
use vstd::prelude::*;

verus! {

/// The mapping of node ID to hardware address as known to one gateway.
#[derive(Debug, Clone)]
pub struct NodeTable(pub BTreeMap<u16, LongAddress>);

impl View for NodeTable {
    type V = Map<u16, LongAddress>;

    open spec fn view(&self) -> Map<u16, LongAddress> {
        self.0@
    }
}

impl NodeTable {
    /// An empty table.
    pub fn new() -> (r: NodeTable)
        ensures
            r@ == Map::<u16, LongAddress>::empty(),
    {
        NodeTable(BTreeMap::new())
    }

    /// The hardware address of a node, if the table knows it.
    pub fn get(&self, id: NodeID) -> (r: Option<LongAddress>)
        ensures
            self@.contains_key(id.0) ==> r == Some(self@[id.0]),
            !self@.contains_key(id.0) ==> r is None,
    {
        match self.0.get(&id.0) {
            Some(a) => Some(*a),
            None => None,
        }
    }

    /// The number of nodes in the table.
    pub fn len(&self) -> (r: usize)
        ensures
            r == self@.dom().len(),
    {
        self.0.len()
    }
}

/// Folding one page's entries into a table: each entry's node address keys
/// its hardware address, its insertion tracking the largest key present. An
/// entry with the reserved zero address aborts the fold.
pub open spec fn spec_insert_entries(
    table: Map<u16, LongAddress>,
    largest: Option<u16>,
    entries: Seq<NodeTableResponseEntry>,
) -> (Map<u16, LongAddress>, Option<u16>, bool)
    decreases entries.len(),
{
    if entries.len() == 0 {
        (table, largest, false)
    } else if entries[0].node_id.0 == 0 {
        (table, largest, true)
    } else {
        let id = entries[0].node_id.0;
        let larger: Option<u16> = match largest {
            None => Some(id),
            Some(m) => if id > m {
                Some(id)
            } else {
                Some(m)
            },
        };
        spec_insert_entries(table.insert(id, entries[0].long_address), larger, entries.drop_first())
    }
}

/// A builder which reassembles a node table from consecutive pages; the next
/// expected start address is `None` between tables.
pub struct NodeTableBuilder {
    pub expected_next: Option<NodeID>,
    pub table: NodeTable,
    pub largest: Option<u16>,
}

/// The page start address a builder expects: the reserved zero between
/// tables.
pub open spec fn spec_expected_address(expected: Option<NodeID>) -> u16 {
    match expected {
        None => 0,
        Some(id) => id.0,
    }
}

/// How folding one page changes a builder, and the table it commits, if
/// any.
pub open spec fn spec_push_rel(
    pre: NodeTableBuilder,
    post: NodeTableBuilder,
    start_address: NodeAddress,
    entries: Seq<NodeTableResponseEntry>,
    r: Option<NodeTable>,
) -> bool {
    let reset = spec_expected_address(pre.expected_next) != start_address.0;
    let base_table: Map<u16, LongAddress> = if reset {
        Map::empty()
    } else {
        pre.table@
    };
    let base_largest: Option<u16> = if reset {
        None
    } else {
        pre.largest
    };
    if reset && start_address.0 != 0 {
        &&& r is None
        &&& post.expected_next is None
        &&& post.table@ == Map::<u16, LongAddress>::empty()
        &&& post.largest is None
    } else {
        let (t2, l2, aborted) = spec_insert_entries(
            base_table,
            base_largest,
            entries,
        );
        if aborted {
            &&& r is None
            &&& post.expected_next is None
            &&& post.table@ == t2
            &&& post.largest == l2
        } else if entries.len() == 0 {
            &&& (r matches Some(t) && t@ == t2)
            &&& post.expected_next is None
            &&& post.table@ == Map::<u16, LongAddress>::empty()
            &&& post.largest is None
        } else {
            &&& r is None
            &&& (l2 matches Some(m) && (if m < 0xffff {
                post.expected_next == Some(NodeID((m + 1) as u16))
                    && post.table@ == t2 && post.largest == l2
            } else {
                post.expected_next is None && post.table@ == Map::<
                    u16,
                    LongAddress,
                >::empty() && post.largest is None
            }))
        }
    }
}

impl NodeTableBuilder {
    /// Well-formedness: the tracked largest key is the largest key of the
    /// partial table.
    pub open spec fn wf(self) -> bool {
        &&& (self.largest matches Some(m) ==> self.table@.contains_key(m) && (forall|k: u16|
            self.table@.contains_key(k) ==> k <= m))
        &&& (self.largest is None ==> self.table@ == Map::<u16, LongAddress>::empty())
    }

    /// A fresh builder with no partial table.
    pub fn new() -> (r: NodeTableBuilder)
        ensures
            r.wf(),
            r.expected_next is None,
            r.table@ == Map::<u16, LongAddress>::empty(),
            r.largest is None,
    {
        NodeTableBuilder { expected_next: None, table: NodeTable::new(), largest: None }
    }

    /// Fold one page into the builder.
    ///
    /// A page whose start address is not the expected one resets the builder,
    /// and is then ignored unless it starts a new table at address zero. An
    /// entry with the reserved zero address aborts the page, keeping the
    /// inserted prefix. An empty page is the table terminator: the assembled
    /// table is returned and the builder reset. Otherwise the next expected
    /// address follows the largest key seen; a table that reaches the largest
    /// possible address is discarded.
    pub fn push(&mut self, start_address: NodeAddress, entries: &Vec<NodeTableResponseEntry>) -> (r:
        Option<NodeTable>)
        requires
            old(self).wf(),
        ensures
            final(self).wf(),
            spec_push_rel(*old(self), *final(self), start_address, entries@, r),
    {
        let expected_addr: u16 = match self.expected_next {
            None => 0,
            Some(id) => id.0,
        };
        if expected_addr != start_address.0 {
            self.expected_next = None;
            self.table = NodeTable::new();
            self.largest = None;
            if start_address.0 != 0 {
                return None;
            }
        }
        let ghost base_table = self.table@;
        let ghost base_largest = self.largest;
        proof {
            assert(entries@.skip(0) =~= entries@);
        }
        let mut i: usize = 0;
        while i < entries.len()
            invariant
                0 <= i <= entries@.len(),
                self.wf(),
                self.expected_next == old(self).expected_next || self.expected_next is None,
                spec_expected_address(old(self).expected_next) == start_address.0
                    || start_address.0 == 0,
                base_table == (if spec_expected_address(old(self).expected_next)
                    != start_address.0 {
                    Map::<u16, LongAddress>::empty()
                } else {
                    old(self).table@
                }),
                base_largest == (if spec_expected_address(old(self).expected_next)
                    != start_address.0 {
                    Option::<u16>::None
                } else {
                    old(self).largest
                }),
                i > 0 ==> self.largest is Some,
                i == 0 ==> self.table@ == base_table && self.largest == base_largest,
                spec_insert_entries(base_table, base_largest, entries@) == spec_insert_entries(
                    self.table@,
                    self.largest,
                    entries@.skip(i as int),
                ),
                spec_insert_entries(
                    self.table@,
                    self.largest,
                    entries@.skip(i as int),
                ).2 == spec_insert_entries(base_table, base_largest, entries@).2,
            decreases entries@.len() - i,
        {
            let id = entries[i].node_id.0;
            proof {
                assert(entries@.skip(i as int)[0] == entries@[i as int]);
                assert(entries@.skip(i as int).drop_first() =~= entries@.skip(i as int + 1));
            }
            if id == 0 {
                self.expected_next = None;
                proof {
                    lemma_insert_entries_aborted(self.table@, self.largest, entries@.skip(
                        i as int,
                    ));
                    assert(spec_insert_entries(self.table@, self.largest, entries@.skip(i as int))
                        == (self.table@, self.largest, true));
                    assert(spec_insert_entries(base_table, base_largest, entries@) == (
                    self.table@,
                    self.largest,
                    true,
                    ));
                }
                return None;
            }
            self.table.0.insert(id, entries[i].long_address);
            self.largest = match self.largest {
                None => Some(id),
                Some(m) => if id > m {
                    Some(id)
                } else {
                    Some(m)
                },
            };
            i = i + 1;
        }
        proof {
            assert(entries@.skip(entries@.len() as int) =~= Seq::<NodeTableResponseEntry>::empty());
        }
        if entries.len() == 0 {
            let mut table = NodeTable::new();
            std::mem::swap(&mut self.table, &mut table);
            self.expected_next = None;
            self.largest = None;
            return Some(table);
        }
        let last: u16 = match self.largest {
            Some(m) => m,
            None => {
                proof {
                    assert(false);
                }
                0
            },
        };
        if last == 0xffff {
            self.table = NodeTable::new();
            self.largest = None;
            self.expected_next = None;
        } else {
            self.expected_next = Some(NodeID(last + 1));
        }
        None
    }
}

/// A fold that aborts on a zero entry leaves the final state aborted however
/// far it got.
proof fn lemma_insert_entries_aborted(
    table: Map<u16, LongAddress>,
    largest: Option<u16>,
    entries: Seq<NodeTableResponseEntry>,
)
    requires
        entries.len() > 0,
        entries[0].node_id.0 == 0,
    ensures
        spec_insert_entries(table, largest, entries).2,
{
}

} // verus!
