//! The string tables together with the weapon, armor and misc item tables.
use vstd::prelude::*;
use crate::itemtbl::ItemTable;
use crate::stringtbl::StringTableManager;

verus! {

pub struct DataTblsManager {
    pub strtbl: StringTableManager,
    pub weapon: ItemTable,
    pub armor: ItemTable,
    pub misc: ItemTable,
}

impl DataTblsManager {
    /// Empty tables; weapons are numbered from 1, armor from 1001, misc items from 2001.
    pub fn new() -> (r: DataTblsManager)
        ensures
            r.strtbl.base().len() == 0,
            r.strtbl.patch().len() == 0,
            r.strtbl.expansion().len() == 0,
            r.strtbl.duck_mod().len() == 0,
            r.strtbl.duck_perm().len() == 0,
            r.weapon.spec_start_index() == 1,
            r.armor.spec_start_index() == 1001,
            r.misc.spec_start_index() == 2001,
            r.weapon.spec_records().spec_records().len() == 0,
            r.armor.spec_records().spec_records().len() == 0,
            r.misc.spec_records().spec_records().len() == 0,
    {
        DataTblsManager {
            strtbl: StringTableManager::new(),
            weapon: ItemTable::new(1),
            armor: ItemTable::new(1001),
            misc: ItemTable::new(2001),
        }
    }

    /// The text that global string id `index` resolves to.
    pub fn get_string_by_index(&self, index: u16) -> (r: Option<&str>)
        ensures
            match r {
                Some(s) => self.strtbl.resolve(index) == Some(s@),
                None => self.strtbl.resolve(index) is None,
            },
    {
        self.strtbl.get_string_by_index(index)
    }
}

} // verus!
