//! The address space: a folder for each PLC, and a variable node for each tag.

use crate::core_model::registry::TagRegistry;
use crate::core_model::tag_definition::{TagDefinition, TagDefinitionView};
use crate::core_model::tag_definition_store::{definition_views, sorted_definitions};
use crate::core_model::tag_value::TagDataType;
use crate::text;
use crate::text::{first_at, has, stands_at};
use vstd::prelude::*;
use vstd::string::*;

verus! {

/// Node id of the objects folder in namespace 0.
pub const OBJECTS_FOLDER: u32 = 85;

/// Node id of the reference type that organizes nodes in folders.
pub const ORGANIZES: u32 = 35;

/// Node id of the type of folders.
pub const FOLDER_TYPE: u32 = 61;

/// Node id of the type of data variables.
pub const BASE_DATA_VARIABLE_TYPE: u32 = 63;

/// Browse name of the folder that holds the folders of the PLCs.
pub fn plcs_folder_name() -> (r: &'static str)
    ensures
        r@ == "PLCs"@,
{
    "PLCs"
}

/// Node id of a data type in namespace 0.
pub open spec fn data_type_node(data_type: TagDataType) -> u32 {
    match data_type {
        TagDataType::Bool => 1,
        TagDataType::Int16 => 4,
        TagDataType::UInt16 => 5,
        TagDataType::Int32 => 6,
        TagDataType::UInt32 => 7,
        TagDataType::Int64 => 8,
        TagDataType::UInt64 => 9,
        TagDataType::Float => 10,
        TagDataType::Double => 11,
        TagDataType::String => 12,
        TagDataType::DateTime => 13,
        TagDataType::ByteString => 15,
    }
}

/// Node id of a data type in namespace 0.
pub fn data_type_node_id(data_type: TagDataType) -> (r: u32)
    ensures
        r == data_type_node(data_type),
{
    match data_type {
        TagDataType::Bool => 1,
        TagDataType::Int16 => 4,
        TagDataType::UInt16 => 5,
        TagDataType::Int32 => 6,
        TagDataType::UInt32 => 7,
        TagDataType::Int64 => 8,
        TagDataType::UInt64 => 9,
        TagDataType::Float => 10,
        TagDataType::Double => 11,
        TagDataType::String => 12,
        TagDataType::DateTime => 13,
        TagDataType::ByteString => 15,
    }
}

/// The part of a text before the first `pat`, or all of it where there is none.
pub open spec fn before(s: Seq<char>, pat: Seq<char>) -> Seq<char> {
    if has(s, pat) {
        s.take(choose|i: int| first_at(s, pat, 0, i))
    } else {
        s
    }
}

/// The part of a text behind the first `pat`, if there is one.
pub open spec fn behind(s: Seq<char>, pat: Seq<char>) -> Option<Seq<char>> {
    if has(s, pat) {
        Some(s.skip((choose|i: int| first_at(s, pat, 0, i)) + pat.len()))
    } else {
        None
    }
}

/// The string identifier of a tag's node: of an id like `ns=1;s=PLC1.Tag1` the part behind `;s=`,
/// up to the next `;s=`; of another id all of it.
pub open spec fn string_id(id: Seq<char>) -> Seq<char> {
    match behind(id, ";s="@) {
        Some(rest) => before(rest, ";s="@),
        None => id,
    }
}

proof fn first_is_unique(s: Seq<char>, pat: Seq<char>, i: int)
    requires
        first_at(s, pat, 0, i),
    ensures
        has(s, pat),
        (choose|k: int| first_at(s, pat, 0, k)) == i,
{
    assert(stands_at(s, pat, i));
    let c = choose|k: int| first_at(s, pat, 0, k);
    assert(first_at(s, pat, 0, c));
    if c < i {
        assert(!stands_at(s, pat, c));
    } else if i < c {
        assert(!stands_at(s, pat, i));
    }
}

/// The string identifier of a tag's node.
pub fn string_node_id(id: &str) -> (r: String)
    ensures
        r@ == string_id(id@),
{
    proof {
        reveal_strlit(";s=");
        assert(";s="@.len() == 3);
    }
    let n: usize = id.unicode_len();
    match text::find_from(id, ";s=", 0) {
        None => id.to_owned(),
        Some(i) => {
            proof {
                first_is_unique(id@, ";s="@, i as int);
            }
            let rest = id.substring_char(i + 3, n);
            assert(rest@ =~= id@.skip(i + 3));
            match text::find_from(rest, ";s=", 0) {
                None => rest.to_owned(),
                Some(j) => {
                    proof {
                        first_is_unique(rest@, ";s="@, j as int);
                    }
                    let part = rest.substring_char(0, j);
                    assert(part@ =~= rest@.take(j as int));
                    part.to_owned()
                },
            }
        },
    }
}

/// A variable node that stands for a tag.
#[derive(Debug)]
pub struct VariableNode {
    /// Id of the tag.
    pub tag_id: String,
    /// String identifier of the node.
    pub string_id: String,
    /// Number of the folder that holds the node.
    pub folder: usize,
    /// Browse name.
    pub browse_name: String,
    /// Node id of the data type in namespace 0.
    pub data_type: u32,
    /// Whether clients may write the value; they may always read it.
    pub writable: bool,
}

/// What a [`VariableNode`] says.
#[verifier::ext_equal]
pub ghost struct VariableNodeView {
    pub tag_id: Seq<char>,
    pub string_id: Seq<char>,
    pub folder: int,
    pub browse_name: Seq<char>,
    pub data_type: u32,
    pub writable: bool,
}

impl View for VariableNode {
    type V = VariableNodeView;

    open spec fn view(&self) -> VariableNodeView {
        VariableNodeView {
            tag_id: self.tag_id@,
            string_id: self.string_id@,
            folder: self.folder as int,
            browse_name: self.browse_name@,
            data_type: self.data_type,
            writable: self.writable,
        }
    }
}

/// Folders of PLCs and the variable nodes in them.
#[derive(Debug)]
pub struct AddressSpace {
    /// Browse names of the folders, in the order in which the variable nodes need them.
    pub folders: Vec<String>,
    /// The variable nodes.
    pub variables: Vec<VariableNode>,
}

/// What an [`AddressSpace`] says.
#[verifier::ext_equal]
pub ghost struct AddressSpaceView {
    pub folders: Seq<Seq<char>>,
    pub variables: Seq<VariableNodeView>,
}

impl View for AddressSpace {
    type V = AddressSpaceView;

    open spec fn view(&self) -> AddressSpaceView {
        AddressSpaceView {
            folders: Seq::new(self.folders@.len(), |i: int| self.folders@[i]@),
            variables: Seq::new(self.variables@.len(), |i: int| self.variables@[i]@),
        }
    }
}

/// The first position of a name.
pub open spec fn is_folder_of(folders: Seq<Seq<char>>, name: Seq<char>, i: int) -> bool {
    &&& 0 <= i < folders.len()
    &&& folders[i] == name
    &&& forall|j: int| 0 <= j < i ==> #[trigger] folders[j] != name
}

/// The folders after one with a name is needed, and its number: a name that has a folder keeps it,
/// another one gets the next number.
pub open spec fn folder_for(folders: Seq<Seq<char>>, name: Seq<char>) -> (Seq<Seq<char>>, int) {
    if exists|i: int| is_folder_of(folders, name, i) {
        (folders, choose|i: int| is_folder_of(folders, name, i))
    } else {
        (folders.push(name), folders.len() as int)
    }
}

/// The address space of definitions, taken one after the other.
pub open spec fn space_of(defs: Seq<TagDefinitionView>) -> AddressSpaceView
    decreases defs.len(),
{
    if defs.len() == 0 {
        AddressSpaceView { folders: Seq::empty(), variables: Seq::empty() }
    } else {
        let rest = space_of(defs.drop_last());
        let d = defs.last();
        let (folders, folder) = folder_for(rest.folders, d.plc_name);
        AddressSpaceView {
            folders,
            variables: rest.variables.push(
                VariableNodeView {
                    tag_id: d.id,
                    string_id: string_id(d.id),
                    folder,
                    browse_name: d.name,
                    data_type: data_type_node(d.data_type),
                    writable: d.writable,
                },
            ),
        }
    }
}

impl AddressSpace {
    fn find_folder(&self, name: &str) -> (r: Option<usize>)
        ensures
            match r {
                Some(i) => folder_for(self@.folders, name@) == (self@.folders, i as int),
                None => folder_for(self@.folders, name@) == (
                    self@.folders.push(name@),
                    self@.folders.len() as int,
                ),
            },
    {
        let ghost fs = self@.folders;
        let mut i: usize = 0;
        while i < self.folders.len()
            invariant
                i <= self.folders@.len(),
                fs == self@.folders,
                forall|j: int| 0 <= j < i ==> #[trigger] fs[j] != name@,
            decreases self.folders@.len() - i,
        {
            if text::same(self.folders[i].as_str(), name) {
                proof {
                    assert(is_folder_of(fs, name@, i as int));
                    let c = choose|c: int| is_folder_of(fs, name@, c);
                    if c < i {
                        assert(fs[c] != name@);
                    } else if i < c {
                        assert(fs[i as int] != name@);
                    }
                }
                return Some(i);
            }
            i = i + 1;
        }
        assert forall|c: int| !is_folder_of(fs, name@, c) by {}
        None
    }

    fn place(&mut self, def: &TagDefinition)
        ensures
            ({
                let (folders, folder) = folder_for(old(self)@.folders, def@.plc_name);
                final(self)@ == (AddressSpaceView {
                    folders,
                    variables: old(self)@.variables.push(
                        VariableNodeView {
                            tag_id: def@.id,
                            string_id: string_id(def@.id),
                            folder,
                            browse_name: def@.name,
                            data_type: data_type_node(def@.data_type),
                            writable: def@.writable,
                        },
                    ),
                })
            }),
    {
        let ghost before = self@;
        let folder: usize = match self.find_folder(def.plc_name.as_str()) {
            Some(i) => i,
            None => {
                let n: usize = self.folders.len();
                self.folders.push(def.plc_name.clone());
                n
            },
        };
        assert(self@.folders =~= folder_for(before.folders, def@.plc_name).0);
        assert(self@.variables =~= before.variables);
        let node = VariableNode {
            tag_id: def.id.clone(),
            string_id: string_node_id(def.id.as_str()),
            folder,
            browse_name: def.name.clone(),
            data_type: data_type_node_id(def.data_type),
            writable: def.writable,
        };
        let ghost between = self@;
        self.variables.push(node);
        assert(self@.variables =~= between.variables.push(node@));
        assert(self@.folders =~= between.folders);
    }

    /// The address space of a registry: its tags in the order of their ids.
    pub fn of(registry: &TagRegistry) -> (r: AddressSpace)
        ensures
            r@ == space_of(sorted_definitions(registry@.definitions)),
    {
        let defs = registry.all_definitions_sorted();
        let ghost views = definition_views(defs@);
        let mut space = AddressSpace { folders: Vec::new(), variables: Vec::new() };
        let mut i: usize = 0;
        assert(space@ =~= space_of(views.take(0)));
        while i < defs.len()
            invariant
                i <= defs@.len(),
                views == definition_views(defs@),
                space@ == space_of(views.take(i as int)),
            decreases defs@.len() - i,
        {
            proof {
                assert(views.take(i + 1).drop_last() =~= views.take(i as int));
                assert(views.take(i + 1).last() == defs@[i as int]@);
            }
            space.place(&defs[i]);
            i = i + 1;
        }
        assert(views.take(i as int) =~= views);
        space
    }
}

// ---------------------------------------------------------------------------
// What holds of every address space
// ---------------------------------------------------------------------------

proof fn folder_for_is_named(folders: Seq<Seq<char>>, name: Seq<char>)
    ensures
        ({
            let (after, i) = folder_for(folders, name);
            &&& 0 <= i < after.len()
            &&& after[i] == name
            &&& folders.len() <= after.len()
            &&& forall|j: int| 0 <= j < folders.len() ==> #[trigger] after[j] == folders[j]
        }),
{
}

/// Every definition has one variable node, in the order of the definitions: with the name, type
/// and access of the definition, in the folder that bears the name of its PLC.
pub proof fn each_tag_has_its_node(defs: Seq<TagDefinitionView>, i: int)
    requires
        0 <= i < defs.len(),
    ensures
        space_of(defs).variables.len() == defs.len(),
        ({
            let space = space_of(defs);
            let v = space.variables[i];
            let d = defs[i];
            &&& v.tag_id == d.id
            &&& v.string_id == string_id(d.id)
            &&& v.browse_name == d.name
            &&& v.data_type == data_type_node(d.data_type)
            &&& v.writable == d.writable
            &&& 0 <= v.folder < space.folders.len()
            &&& space.folders[v.folder] == d.plc_name
        }),
    decreases defs.len(),
{
    let rest = defs.drop_last();
    folder_for_is_named(space_of(rest).folders, defs.last().plc_name);
    nodes_and_definitions(rest);
    if i < rest.len() {
        each_tag_has_its_node(rest, i);
        assert(rest[i] == defs[i]);
    }
}

proof fn nodes_and_definitions(defs: Seq<TagDefinitionView>)
    ensures
        space_of(defs).variables.len() == defs.len(),
    decreases defs.len(),
{
    if defs.len() > 0 {
        nodes_and_definitions(defs.drop_last());
    }
}

/// No two folders bear the same name.
pub proof fn folders_are_distinct(defs: Seq<TagDefinitionView>, i: int, j: int)
    requires
        0 <= i < j < space_of(defs).folders.len(),
    ensures
        space_of(defs).folders[i] != space_of(defs).folders[j],
    decreases defs.len(),
{
    let rest = space_of(defs.drop_last()).folders;
    let name = defs.last().plc_name;
    if j < rest.len() {
        folders_are_distinct(defs.drop_last(), i, j);
    } else {
        assert(rest[i] != name) by {
            if rest[i] == name {
                first_folder(rest, name, i);
            }
        }
    }
}

proof fn first_folder(folders: Seq<Seq<char>>, name: Seq<char>, i: int)
    requires
        0 <= i < folders.len(),
        folders[i] == name,
    ensures
        exists|k: int| is_folder_of(folders, name, k),
    decreases i,
{
    if exists|j: int| 0 <= j < i && #[trigger] folders[j] == name {
        let j = choose|j: int| 0 <= j < i && #[trigger] folders[j] == name;
        first_folder(folders, name, j);
    } else {
        assert(is_folder_of(folders, name, i));
    }
}

} // verus!
