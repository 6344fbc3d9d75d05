use vstd::prelude::*;

use crate::definition::{find_name, first_index, texts, NodeDefinition};
use crate::error::Error;
use crate::node::Node;

verus! {

broadcast use vstd::seq_lib::group_seq_properties;

/// The catalog of node kinds, keyed by stable id and by name.
#[derive(Debug)]
pub struct NodeRegistry {
    /// At most one definition per id, in order of first registration.
    pub defs: Vec<NodeDefinition>,
    /// Names in order of registration; a later entry for a name wins.
    pub names: Vec<String>,
    /// The id registered under each entry of `names`.
    pub name_ids: Vec<u128>,
}

/// The position of the definition with id `id`.
pub open spec fn def_index(defs: Seq<NodeDefinition>, id: u128) -> Option<int> {
    if exists|i: int| 0 <= i < defs.len() && defs[i].id == id {
        Some(choose|i: int| 0 <= i < defs.len() && defs[i].id == id)
    } else {
        None
    }
}

/// The id that a name was last registered under.
pub open spec fn name_id(names: Seq<Seq<char>>, ids: Seq<u128>, name: Seq<char>) -> Option<u128>
    decreases names.len(),
{
    if names.len() == 0 || ids.len() != names.len() {
        None
    } else if names.last() == name {
        Some(ids.last())
    } else {
        name_id(names.drop_last(), ids.drop_last(), name)
    }
}

impl NodeRegistry {
    pub open spec fn wf(&self) -> bool {
        &&& self.names@.len() == self.name_ids@.len()
        &&& forall|i: int, j: int| 0 <= i < j < self.defs@.len() ==> self.defs@[i].id != self.defs@[j].id
    }

    /// The definition registered under `id`.
    pub open spec fn def(&self, id: u128) -> Option<NodeDefinition> {
        match def_index(self.defs@, id) {
            Some(i) => Some(self.defs@[i]),
            None => None,
        }
    }

    /// An empty registry.
    pub fn new() -> (r: Self)
        ensures
            r.wf(),
            r.defs@.len() == 0,
            forall|id: u128| r.def(id) is None,
    {
        NodeRegistry { defs: Vec::new(), names: Vec::new(), name_ids: Vec::new() }
    }

    fn find_id(&self, id: u128) -> (r: Option<usize>)
        requires
            self.wf(),
        ensures
            match r {
                Some(i) => i < self.defs@.len() && def_index(self.defs@, id) == Some(i as int),
                None => def_index(self.defs@, id) is None,
            },
    {
        let mut i: usize = 0;
        while i < self.defs.len()
            invariant
                self.wf(),
                i <= self.defs@.len(),
                forall|j: int| 0 <= j < i ==> self.defs@[j].id != id,
            decreases self.defs@.len() - i,
        {
            if self.defs[i].id == id {
                proof {
                    let k = choose|k: int| 0 <= k < self.defs@.len() && self.defs@[k].id == id;
                    if k < i {
                        assert(self.defs@[k].id != self.defs@[i as int].id);
                    } else if k > i {
                        assert(self.defs@[i as int].id != self.defs@[k].id);
                    }
                }
                return Some(i);
            }
            i = i + 1;
        }
        None
    }

    /// Registers a definition under its id and name. A definition already
    /// registered under that id is replaced and returned, so that a caller can
    /// report the duplicate.
    pub fn register(&mut self, def: NodeDefinition) -> (r: Option<NodeDefinition>)
        requires
            old(self).wf(),
        ensures
            final(self).wf(),
            r == old(self).def(def.id),
            final(self).def(def.id) == Some(def),
            forall|id: u128| id != def.id ==> final(self).def(id) == old(self).def(id),
            name_id(texts(final(self).names@), final(self).name_ids@, def.name@) == Some(def.id),
    {
        let id = def.id;
        let ghost d = def;
        self.names.push(def.name.clone());
        self.name_ids.push(id);
        assert(texts(self.names@).drop_last() =~= texts(old(self).names@));
        assert(self.name_ids@.drop_last() =~= old(self).name_ids@);
        match self.find_id(id) {
            Some(i) => {
                let mut slot = def;
                self.defs.set_and_swap(i, &mut slot);
                proof {
                    assert forall|x: u128| x != id implies self.def(x) == old(self).def(x) by {
                        if def_index(old(self).defs@, x) is Some {
                            let k = choose|k: int| 0 <= k < old(self).defs@.len() && old(self).defs@[k].id == x;
                            assert(self.defs@[k].id == x);
                        }
                        if def_index(self.defs@, x) is Some {
                            let k = choose|k: int| 0 <= k < self.defs@.len() && self.defs@[k].id == x;
                            assert(old(self).defs@[k].id == x);
                        }
                    }
                    let k = choose|k: int| 0 <= k < self.defs@.len() && self.defs@[k].id == id;
                    assert(self.defs@[i as int].id == id);
                    assert(k == i as int);
                }
                Some(slot)
            },
            None => {
                self.defs.push(def);
                proof {
                    let n = old(self).defs@.len() as int;
                    assert(self.defs@[n].id == id);
                    let k = choose|k: int| 0 <= k < self.defs@.len() && self.defs@[k].id == id;
                    assert(k == n);
                    assert forall|x: u128| x != id implies self.def(x) == old(self).def(x) by {
                        if def_index(old(self).defs@, x) is Some {
                            let k = choose|k: int| 0 <= k < old(self).defs@.len() && old(self).defs@[k].id == x;
                            assert(self.defs@[k].id == x);
                        }
                        if def_index(self.defs@, x) is Some {
                            let k = choose|k: int| 0 <= k < self.defs@.len() && self.defs@[k].id == x;
                            assert(k < n);
                            assert(old(self).defs@[k].id == x);
                        }
                    }
                }
                None
            },
        }
    }

    /// The definition registered under `id`.
    pub fn get(&self, id: u128) -> (r: Option<&NodeDefinition>)
        requires
            self.wf(),
        ensures
            match self.def(id) {
                Some(d) => r is Some && *r->Some_0 == d,
                None => r is None,
            },
    {
        match self.find_id(id) {
            Some(i) => Some(&self.defs[i]),
            None => None,
        }
    }

    /// A fresh node of the kind registered under `id`.
    pub fn new_by_id(&self, id: u128) -> (r: Result<Node, Error>)
        requires
            self.wf(),
            forall|i: int| 0 <= i < self.defs@.len() ==> (#[trigger] self.defs@[i]).inputs@.len() <= u32::MAX,
        ensures
            match self.def(id) {
                Some(d) => r is Ok && r->Ok_0.wf() && r->Ok_0.node_type == id && r->Ok_0.keys() == d.input_keys()
                    && r->Ok_0.inputs@.len() == d.inputs@.len(),
                None => r == Err::<Node, Error>(Error::MissingDefinition),
            },
    {
        match self.find_id(id) {
            Some(i) => Ok(Node::new(&self.defs[i])),
            None => Err(Error::MissingDefinition),
        }
    }

    /// A fresh node of the kind last registered under `name`.
    pub fn new_by_name(&self, name: &str) -> (r: Result<Node, Error>)
        requires
            self.wf(),
            forall|i: int| 0 <= i < self.defs@.len() ==> (#[trigger] self.defs@[i]).inputs@.len() <= u32::MAX,
        ensures
            match name_id(texts(self.names@), self.name_ids@, name@) {
                Some(id) => match self.def(id) {
                    Some(d) => r is Ok && r->Ok_0.node_type == id && r->Ok_0.inputs@.len() == d.inputs@.len(),
                    None => r == Err::<Node, Error>(Error::MissingDefinition),
                },
                None => r == Err::<Node, Error>(Error::MissingDefinition),
            },
    {
        let key = String::from_str(name);
        let mut i: usize = self.names.len();
        assert(texts(self.names@).subrange(0, i as int) =~= texts(self.names@));
        assert(self.name_ids@.subrange(0, i as int) =~= self.name_ids@);
        while i > 0
            invariant
                self.wf(),
                forall|i: int| 0 <= i < self.defs@.len() ==> (#[trigger] self.defs@[i]).inputs@.len() <= u32::MAX,
                key@ == name@,
                i <= self.names@.len(),
                self.names@.len() == self.name_ids@.len(),
                name_id(texts(self.names@), self.name_ids@, name@)
                    == name_id(texts(self.names@).subrange(0, i as int), self.name_ids@.subrange(0, i as int), name@),
            decreases i,
        {
            assert(texts(self.names@).subrange(0, i as int).drop_last() =~= texts(self.names@).subrange(0, i - 1));
            assert(self.name_ids@.subrange(0, i as int).drop_last() =~= self.name_ids@.subrange(0, i - 1));
            if self.names[i - 1] == key {
                return self.new_by_id(self.name_ids[i - 1]);
            }
            i = i - 1;
        }
        Err(Error::MissingDefinition)
    }

    /// Every registered kind, in order of first registration.
    pub fn nodes(&self) -> (r: &Vec<NodeDefinition>)
        ensures
            r@ == self.defs@,
    {
        &self.defs
    }

    /// The number of registered kinds.
    pub fn len(&self) -> (r: usize)
        ensures
            r == self.defs@.len(),
    {
        self.defs.len()
    }
}

} // verus!
