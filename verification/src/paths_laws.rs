//! Where files are found, said of what is there.
use crate::paths::{
    appdata_config_place, config_place, pack_name, packs_place, real_content, Place, Root,
};
use crate::progress::{key_form, owned};
use vstd::prelude::*;

verus! {

/// A name is that of a pack exactly where something stands before the extension.
pub proof fn packs_have_a_name_before_their_extension(base: Seq<char>, name: Seq<char>)
    ensures
        base.len() > 0 ==> pack_name(base + ".eftpack"@),
        !pack_name(".eftpack"@),
        pack_name(name) ==> exists|b: Seq<char>| b.len() > 0 && name == #[trigger] (b + ".eftpack"@),
{
    let ext = ".eftpack"@;
    let n = base + ext;
    let k = n.len() - ext.len();
    assert(n.subrange(k, k + ext.len()) =~= ext);
    if pack_name(name) {
        let k = name.len() - ext.len();
        let b = name.take(k);
        assert(name.subrange(k, k + ext.len()) == ext);
        assert(name =~= b + ext);
    }
}

/// A directory of packs holds something real exactly where it has a catalogue or a pack.
pub proof fn catalogues_and_packs_are_content(loot: bool, tasks: bool, names: Seq<Seq<char>>)
    ensures
        loot || tasks ==> real_content(loot, tasks, names),
        forall|i: int| 0 <= i < names.len() && pack_name(#[trigger] names[i]) ==> real_content(loot, tasks, names),
        real_content(false, false, names) ==> exists|i: int| 0 <= i < names.len() && pack_name(#[trigger] names[i]),
{
}

/// The packs are beside the program or in the working directory, under one name. Content decides,
/// beside the program first; without content the directory that exists does, and else it is beside the
/// program.
pub proof fn packs_are_looked_for_beside_the_program(
    exe_content: bool,
    cwd_content: bool,
    exe_dir: bool,
    cwd_dir: bool,
)
    ensures
        ({
            let p = packs_place(exe_content, cwd_content, exe_dir, cwd_dir);
            &&& p.parts == seq!["packs"@]
            &&& p.root == Root::Exe || p.root == Root::Relative
            &&& exe_content ==> p.root == Root::Exe
            &&& !exe_content && cwd_content ==> p.root == Root::Relative
            &&& !exe_content && !cwd_content && exe_dir ==> p.root == Root::Exe
            &&& !exe_content && !cwd_content && !exe_dir && cwd_dir ==> p.root == Root::Relative
            &&& !exe_content && !cwd_content && !exe_dir && !cwd_dir ==> p.root == Root::Exe
        }),
{
}

/// The configuration is that of the profile where it exists, else that beside the program, else that
/// of the working directory; where none exists it is to be in the profile, or beside the program where
/// there is no profile.
pub proof fn the_profile_comes_first(appdata: bool, in_appdata: bool, beside_exe: bool, in_cwd: bool)
    ensures
        ({
            let p = config_place(appdata, in_appdata, beside_exe, in_cwd);
            let profile = appdata && in_appdata;
            &&& profile ==> p.root == Root::AppData
            &&& !profile && beside_exe ==> p.root == Root::Exe
            &&& !profile && !beside_exe && in_cwd ==> p.root == Root::Relative
            &&& !profile && !beside_exe && !in_cwd && appdata ==> p.root == Root::AppData
            &&& !profile && !beside_exe && !in_cwd && !appdata ==> p.root == Root::Exe
            &&& p.root == Root::AppData ==> p.parts == seq!["atlas"@, "atlas.config.json"@]
            &&& p.root != Root::AppData ==> p.parts == seq!["atlas.config.json"@]
        }),
        appdata_config_place(true) == Some(
            (Place { root: Root::AppData, parts: seq!["atlas"@, "atlas.config.json"@] }),
        ),
        appdata_config_place(false) is None,
{
}

/// A key is owned exactly where one of the player's has its name, in the form in which names are
/// compared; one more key makes at most that name owned.
pub proof fn keys_are_owned_by_name(keys: Seq<Seq<char>>, k: Seq<char>, name: Seq<char>)
    ensures
        owned(keys.push(k), name) <==> owned(keys, name) || key_form(k) == key_form(name),
        !owned(Seq::empty(), name),
        keys.contains(name) ==> owned(keys, name),
{
    let all = keys.push(k);
    if owned(keys, name) {
        let i = choose|i: int| 0 <= i < keys.len() && key_form(#[trigger] keys[i]) == key_form(name);
        assert(all[i] == keys[i]);
    }
    if key_form(k) == key_form(name) {
        assert(all[keys.len() as int] == k);
    }
    if owned(all, name) {
        let i = choose|i: int| 0 <= i < all.len() && key_form(#[trigger] all[i]) == key_form(name);
        if i < keys.len() {
            assert(keys[i] == all[i]);
        }
    }
    if keys.contains(name) {
        let i = choose|i: int| 0 <= i < keys.len() && keys[i] == name;
        assert(key_form(keys[i]) == key_form(name));
    }
}

} // verus!
