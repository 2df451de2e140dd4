//! Volume classification for the mounted-volumes listing: every entry of
//! the volumes directory is reported, and an entry counts as removable
//! unless it is the system volume.
use vstd::prelude::*;
use vstd::string::StringExecFns;

verus! {

/// One mounted volume.
pub struct VolumeInfo {
    pub name: String,
    pub path: String,
    pub is_removable: bool,
}

/// The system volume's name; the one volume never offered as removable.
pub open spec fn spec_system_volume_name() -> Seq<char> {
    "Macintosh HD"@
}

/// A volume is removable iff it is not the system volume.
pub open spec fn spec_volume_removable(name: Seq<char>) -> bool {
    name != spec_system_volume_name()
}

/// Classify one entry of the volumes directory.
pub fn classify_volume(name: String, path: String) -> (v: VolumeInfo)
    ensures
        v.name@ == name@,
        v.path@ == path@,
        v.is_removable == spec_volume_removable(name@),
{
    let system = String::from_str("Macintosh HD");
    let is_removable = !name.eq(&system);
    VolumeInfo { name, path, is_removable }
}

/// Classify every entry of the volumes directory, in listing order.  Each
/// entry arrives as its name and its filesystem path.
pub fn classify_volumes(entries: Vec<(String, String)>) -> (vols: Vec<VolumeInfo>)
    ensures
        vols@.len() == entries@.len(),
        forall|i: int|
            0 <= i < entries@.len() ==> {
                &&& (#[trigger] vols@[i]).name@ == entries@[i].0@
                &&& vols@[i].path@ == entries@[i].1@
                &&& vols@[i].is_removable == spec_volume_removable(entries@[i].0@)
            },
{
    let mut vols: Vec<VolumeInfo> = Vec::new();
    let mut i: usize = 0;
    while i < entries.len()
        invariant
            0 <= i <= entries@.len(),
            vols@.len() == i,
            forall|j: int|
                0 <= j < i ==> {
                    &&& (#[trigger] vols@[j]).name@ == entries@[j].0@
                    &&& vols@[j].path@ == entries@[j].1@
                    &&& vols@[j].is_removable == spec_volume_removable(entries@[j].0@)
                },
        decreases entries@.len() - i,
    {
        let (name, path) = (entries[i].0.clone(), entries[i].1.clone());
        vols.push(classify_volume(name, path));
        i = i + 1;
    }
    vols
}

} // verus!
