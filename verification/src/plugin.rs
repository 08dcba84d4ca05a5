//! The menu entries of the tools and the routing of their commands.
use vstd::prelude::*;
use crate::text::str_eq;
use crate::error::owned;

verus! {

/// One feature of a tool's menu.
#[derive(Debug, Clone)]
pub struct ToolFeature {
    pub id: String,
    pub name: String,
    pub icon: String,
}

/// A tool's menu entry.
#[derive(Debug, Clone)]
pub struct ToolInfo {
    pub id: String,
    pub name: String,
    pub icon: String,
    pub features: Vec<ToolFeature>,
}

/// The fields of a feature: id, name, icon.
pub open spec fn feature_view(f: ToolFeature) -> (Seq<char>, Seq<char>, Seq<char>) {
    (f.id@, f.name@, f.icon@)
}

pub open spec fn feature_views(fs: Seq<ToolFeature>) -> Seq<(Seq<char>, Seq<char>, Seq<char>)> {
    Seq::new(fs.len(), |i: int| feature_view(fs[i]))
}

/// A feature made of literals.
pub fn tool_feature(id: &str, name: &str, icon: &str) -> (r: ToolFeature)
    ensures
        feature_view(r) == (id@, name@, icon@),
{
    ToolFeature { id: owned(id), name: owned(name), icon: owned(icon) }
}

/// A menu entry.
pub fn tool_info(id: &str, name: &str, icon: &str, features: Vec<ToolFeature>) -> (r: ToolInfo)
    ensures
        r.id@ == id@,
        r.name@ == name@,
        r.icon@ == icon@,
        r.features == features,
{
    ToolInfo { id: owned(id), name: owned(name), icon: owned(icon), features }
}

/// The plugin that serves a command: the last one, in registration order,
/// whose command list names it.
pub open spec fn route_of(lists: Seq<Seq<Seq<char>>>, command: Seq<char>) -> Option<nat>
    decreases lists.len(),
{
    if lists.len() == 0 {
        None
    } else if lists.last().contains(command) {
        Some((lists.len() - 1) as nat)
    } else {
        route_of(lists.drop_last(), command)
    }
}

/// The plugin that serves `command`, given each plugin's command list in
/// registration order (see [`route_of`]).
pub fn route_command(command_lists: &Vec<Vec<String>>, command: &str) -> (r: Option<usize>)
    ensures
        match route_of(Seq::new(command_lists@.len(), |i: int| command_lists@[i].deep_view()), command@) {
            Some(k) => r == Some(k as usize),
            None => r is None,
        },
{
    let ghost lists = Seq::new(command_lists@.len(), |i: int| command_lists@[i].deep_view());
    let mut i: usize = command_lists.len();
    assert(lists.take(i as int) =~= lists);
    while i > 0
        invariant
            i <= command_lists@.len(),
            lists == Seq::new(command_lists@.len(), |i: int| command_lists@[i].deep_view()),
            route_of(lists, command@) == route_of(lists.take(i as int), command@),
        decreases i,
    {
        let names = &command_lists[i - 1];
        let mut j: usize = 0;
        let mut found = false;
        while j < names.len()
            invariant
                j <= names@.len(),
                found == exists|k: int| 0 <= k < j && (#[trigger] names@[k])@ == command@,
            decreases names.len() - j,
        {
            if str_eq(names[j].as_str(), command) {
                found = true;
            }
            j += 1;
        }
        proof {
            assert(lists.take(i as int).last() == names.deep_view());
            if found {
                let k = choose|k: int| 0 <= k < names@.len() && (#[trigger] names@[k])@ == command@;
                assert(names.deep_view()[k] == command@);
            } else {
                assert forall|k: int| 0 <= k < names.deep_view().len() implies names.deep_view()[k] != command@ by {
                    assert(names.deep_view()[k] == names@[k]@);
                }
            }
            assert(lists.take(i as int).drop_last() =~= lists.take(i - 1));
        }
        if found {
            return Some(i - 1);
        }
        i -= 1;
    }
    None
}

} // verus!
