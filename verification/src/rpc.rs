//! Which groups of RPC methods a node serves.

use vstd::prelude::*;

verus! {

/// A group of RPC methods.
#[derive(Debug, Clone, Copy, PartialEq, Eq)]
pub enum RPCModules {
    Net,
    Eth,
    Flk,
}

/// The groups that are switched on.
#[derive(Debug, Clone, PartialEq, Eq)]
pub enum RPCSelection {
    Nothing,
    All,
    Selected(Vec<RPCModules>),
}

impl RPCSelection {
    /// The groups that the selection stands for, in the order in which they
    /// are served.
    pub open spec fn modules(self) -> Seq<RPCModules> {
        match self {
            RPCSelection::Nothing => Seq::empty(),
            RPCSelection::All => seq![RPCModules::Net, RPCModules::Eth, RPCModules::Flk],
            RPCSelection::Selected(v) => v@,
        }
    }

    /// Lists the selected groups: none, all three, or the ones named.
    pub fn iter(self) -> (list: Vec<RPCModules>)
        ensures
            list@ == self.modules(),
    {
        match self {
            RPCSelection::Nothing => Vec::new(),
            RPCSelection::All => {
                let mut list: Vec<RPCModules> = Vec::new();
                list.push(RPCModules::Net);
                list.push(RPCModules::Eth);
                list.push(RPCModules::Flk);
                assert(list@ =~= seq![RPCModules::Net, RPCModules::Eth, RPCModules::Flk]);
                list
            },
            RPCSelection::Selected(v) => v,
        }
    }
}

impl Default for RPCSelection {
    /// Every group is served unless the configuration says otherwise.
    fn default() -> (selection: Self)
        ensures
            selection == RPCSelection::All,
    {
        RPCSelection::All
    }
}

} // verus!
