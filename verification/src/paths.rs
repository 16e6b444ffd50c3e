//! Where files are found and written: beside the program, in the working directory or in the user's
//! profile.
//!
//! A place is a root and the names below it; the program that runs this library knows the roots and
//! looks at the disk.
use vstd::prelude::*;
use crate::text::{ends_with, same};
use crate::text::{ends, texts};

verus! {

/// The roots that places are given under.
#[derive(Clone, Copy, Debug, PartialEq, Eq, Structural)]
pub enum Root {
    /// The directory of the running program.
    Exe,
    /// The working directory, by a relative path.
    Relative,
    /// The working directory, by its absolute path.
    WorkingDir,
    /// The user's profile directory.
    AppData,
    /// The directory of packs.
    Packs,
    /// The directory of the build kit.
    Kit,
}

/// A place: names below a root.
#[derive(Debug)]
pub struct Location {
    pub root: Root,
    pub parts: Vec<String>,
}

/// A place, as a value to speak of.
#[verifier::ext_equal]
pub struct Place {
    pub root: Root,
    pub parts: Seq<Seq<char>>,
}

impl View for Location {
    type V = Place;

    open spec fn view(&self) -> Place {
        Place { root: self.root, parts: texts(self.parts@) }
    }
}

/// The place of the given names below a root.
pub open spec fn place(root: Root, parts: Seq<Seq<char>>) -> Place {
    Place { root, parts }
}

impl Location {
    fn at(root: Root) -> (r: Location)
        ensures
            r@ == place(root, seq![]),
    {
        let r = Location { root, parts: Vec::new() };
        proof {
            assert(texts(r.parts@) =~= Seq::<Seq<char>>::empty());
        }
        r
    }

    fn join(self, name: &str) -> (r: Location)
        ensures
            r@ == place(self@.root, self@.parts.push(name@)),
    {
        let mut parts = self.parts;
        let ghost before = texts(parts@);
        parts.push(name.to_owned());
        proof {
            assert(texts(parts@) =~= before.push(name@));
        }
        Location { root: self.root, parts }
    }
}

/// Whether a file name has the extension of a pack. A name that is all extension has none.
pub open spec fn pack_name(name: Seq<char>) -> bool {
    ends(name, ".eftpack"@) && name.len() > ".eftpack"@.len()
}

/// Whether a directory of packs holds anything real: the shared catalogues, or a pack among the names
/// in it. A texture cache alone does not count.
pub open spec fn real_content(loot: bool, tasks: bool, names: Seq<Seq<char>>) -> bool {
    loot || tasks || exists|i: int| 0 <= i < names.len() && pack_name(#[trigger] names[i])
}

/// Whether a directory of packs holds anything real, given whether its catalogues of loot and tasks
/// are there, and the names in it.
pub fn has_content(loot: bool, tasks: bool, names: &Vec<String>) -> (r: bool)
    ensures
        r == real_content(loot, tasks, texts(names@)),
{
    if loot || tasks {
        return true;
    }
    proof {
        reveal_strlit(".eftpack");
    }
    let n: usize = names.len();
    let mut i: usize = 0;
    while i < n
        invariant
            i <= n,
            n == names@.len(),
            !loot && !tasks,
            ".eftpack"@.len() == 8,
            forall|j: int| 0 <= j < i ==> !pack_name(#[trigger] texts(names@)[j]),
        decreases n - i,
    {
        let name = names[i].as_str();
        if ends_with(name, ".eftpack") && !same(name, ".eftpack") {
            proof {
                assert(texts(names@)[i as int] == name@);
                if name@.len() == 8 {
                    assert(name@ =~= ".eftpack"@);
                }
            }
            return true;
        }
        proof {
            assert(texts(names@)[i as int] == name@);
        }
        i = i + 1;
    }
    false
}

/// Where the packs are: beside the program if there is content there, else in the working directory
/// if there is some there; without content anywhere, beside the program if that directory exists,
/// else in the working directory if that one does, else beside the program.
pub open spec fn packs_place(exe_content: bool, cwd_content: bool, exe_dir: bool, cwd_dir: bool) -> Place {
    if exe_content || (!cwd_content && (exe_dir || !cwd_dir)) {
        place(Root::Exe, seq!["packs"@])
    } else {
        place(Root::Relative, seq!["packs"@])
    }
}

/// The directory of packs, given of the one beside the program and of the one in the working
/// directory whether they hold content and whether they exist.
pub fn packs_root(exe_content: bool, cwd_content: bool, exe_dir: bool, cwd_dir: bool) -> (r: Location)
    ensures
        r@ == packs_place(exe_content, cwd_content, exe_dir, cwd_dir),
{
    let r = if exe_content {
        Location::at(Root::Exe).join("packs")
    } else if cwd_content {
        Location::at(Root::Relative).join("packs")
    } else if exe_dir {
        Location::at(Root::Exe).join("packs")
    } else if cwd_dir {
        Location::at(Root::Relative).join("packs")
    } else {
        Location::at(Root::Exe).join("packs")
    };
    proof {
        assert(seq![].push("packs"@) =~= seq!["packs"@]);
    }
    r
}

/// The directory that all maps share.
pub fn shared_dir() -> (r: Location)
    ensures
        r@ == place(Root::Packs, seq!["shared"@]),
{
    let r = Location::at(Root::Packs).join("shared");
    proof {
        assert(r@.parts =~= seq!["shared"@]);
    }
    r
}

/// The configuration in the user's profile; none where there is no profile.
pub open spec fn appdata_config_place(appdata: bool) -> Option<Place> {
    if appdata {
        Some(place(Root::AppData, seq!["atlas"@, "atlas.config.json"@]))
    } else {
        None
    }
}

/// The configuration in the user's profile, given whether there is a profile.
pub fn appdata_config(appdata: bool) -> (r: Option<Location>)
    ensures
        match r {
            Some(l) => appdata_config_place(appdata) == Some(l@),
            None => appdata_config_place(appdata) is None,
        },
{
    if appdata {
        let r = Location::at(Root::AppData).join("atlas").join("atlas.config.json");
        proof {
            assert(r@.parts =~= seq!["atlas"@, "atlas.config.json"@]);
        }
        Some(r)
    } else {
        None
    }
}

/// The user's progress: in the profile where there is one, else beside the program.
pub fn progress_path(appdata: bool) -> (r: Location)
    ensures
        r@ == place(
            if appdata {
                Root::AppData
            } else {
                Root::Exe
            },
            seq!["atlas"@, "progress.json"@],
        ),
{
    let root: Root = if appdata {
        Root::AppData
    } else {
        Root::Exe
    };
    let r = Location::at(root).join("atlas").join("progress.json");
    proof {
        assert(r@.parts =~= seq!["atlas"@, "progress.json"@]);
    }
    r
}

/// The configuration: the first that exists of those in the profile, beside the program and in the
/// working directory; where none exists, the one to write, in the profile where there is one and
/// beside the program otherwise.
pub open spec fn config_place(appdata: bool, in_appdata: bool, beside_exe: bool, in_cwd: bool) -> Place {
    if appdata && in_appdata {
        place(Root::AppData, seq!["atlas"@, "atlas.config.json"@])
    } else if beside_exe {
        place(Root::Exe, seq!["atlas.config.json"@])
    } else if in_cwd {
        place(Root::Relative, seq!["atlas.config.json"@])
    } else if appdata {
        place(Root::AppData, seq!["atlas"@, "atlas.config.json"@])
    } else {
        place(Root::Exe, seq!["atlas.config.json"@])
    }
}

/// The configuration, given whether there is a profile and which of the three files exist.
pub fn config_path(appdata: bool, in_appdata: bool, beside_exe: bool, in_cwd: bool) -> (r: Location)
    ensures
        r@ == config_place(appdata, in_appdata, beside_exe, in_cwd),
{
    let user = appdata_config(appdata);
    if let Some(l) = user {
        if in_appdata || !(beside_exe || in_cwd) {
            return l;
        }
    }
    let root: Root = if !beside_exe && in_cwd {
        Root::Relative
    } else {
        Root::Exe
    };
    let r = Location::at(root).join("atlas.config.json");
    proof {
        assert(r@.parts =~= seq!["atlas.config.json"@]);
    }
    r
}

/// The file by which the build kit is recognised.
pub fn kit_script(root: Root) -> (r: Location)
    ensures
        r@ == place(root, seq!["tools"@, "build_map.py"@]),
{
    let r = Location::at(root).join("tools").join("build_map.py");
    proof {
        assert(r@.parts =~= seq!["tools"@, "build_map.py"@]);
    }
    r
}

/// Where the build kit is: in the working directory, else beside the program, else nowhere. `in_cwd`
/// is none where the working directory is not known.
pub fn repo_root(in_cwd: Option<bool>, beside_exe: bool) -> (r: Option<Root>)
    ensures
        r == (if in_cwd == Some(true) {
            Some(Root::WorkingDir)
        } else if beside_exe {
            Some(Root::Exe)
        } else {
            None
        }),
{
    match in_cwd {
        Some(true) => Some(Root::WorkingDir),
        _ => if beside_exe {
            Some(Root::Exe)
        } else {
            None
        },
    }
}

/// The Python to build with.
#[derive(Debug)]
pub enum Python {
    /// By the path that the environment gives.
    Given(String),
    /// At a place below the kit.
    At(Location),
    /// As "python", from the search path.
    OnPath,
}

/// The Python that is bundled with the kit.
pub fn bundled_python() -> (r: Location)
    ensures
        r@ == place(Root::Kit, seq!["python"@, "python.exe"@]),
{
    let r = Location::at(Root::Kit).join("python").join("python.exe");
    proof {
        assert(r@.parts =~= seq!["python"@, "python.exe"@]);
    }
    r
}

/// The Python of the kit's virtual environment.
pub fn venv_python() -> (r: Location)
    ensures
        r@ == place(Root::Kit, seq!["venv"@, "Scripts"@, "python.exe"@]),
{
    let r = Location::at(Root::Kit).join("venv").join("Scripts").join("python.exe");
    proof {
        assert(r@.parts =~= seq!["venv"@, "Scripts"@, "python.exe"@]);
    }
    r
}

/// The Python to build with: the one that the environment names (unless the name is empty), else the
/// bundled one if its file is there, else that of the virtual environment if its file is there, else
/// whatever the search path has.
pub fn python_exe(env: Option<&str>, bundled: bool, venv: bool) -> (r: Python)
    ensures
        env is Some && env->0@.len() > 0 ==> (r matches Python::Given(p) && p@ == env->0@),
        (env is None || env->0@.len() == 0) && bundled ==> (r matches Python::At(l) && l@ == place(
            Root::Kit,
            seq!["python"@, "python.exe"@],
        )),
        (env is None || env->0@.len() == 0) && !bundled && venv ==> (r matches Python::At(l) && l@
            == place(Root::Kit, seq!["venv"@, "Scripts"@, "python.exe"@])),
        (env is None || env->0@.len() == 0) && !bundled && !venv ==> r is OnPath,
{
    proof {
        reveal_strlit("");
    }
    if let Some(p) = env {
        if !same(p, "") {
            proof {
                if p@.len() == 0 {
                    assert(p@ =~= ""@);
                }
            }
            return Python::Given(p.to_owned());
        }
    }
    if bundled {
        return Python::At(bundled_python());
    }
    if venv {
        return Python::At(venv_python());
    }
    Python::OnPath
}

/// An existing configuration is never passed over for a place that holds none.
pub proof fn existing_config_is_found(appdata: bool, in_appdata: bool, beside_exe: bool, in_cwd: bool)
    requires
        (appdata && in_appdata) || beside_exe || in_cwd,
    ensures
        config_place(appdata, in_appdata, beside_exe, in_cwd).root == Root::AppData ==> appdata
            && in_appdata,
        config_place(appdata, in_appdata, beside_exe, in_cwd).root == Root::Exe ==> beside_exe,
        config_place(appdata, in_appdata, beside_exe, in_cwd).root == Root::Relative ==> in_cwd,
{
}

/// A directory of packs without content never wins over one that has some.
pub proof fn content_decides_the_packs(exe_content: bool, cwd_content: bool, exe_dir: bool, cwd_dir: bool)
    requires
        exe_content || cwd_content,
    ensures
        packs_place(exe_content, cwd_content, exe_dir, cwd_dir).root == Root::Exe ==> exe_content,
        packs_place(exe_content, cwd_content, exe_dir, cwd_dir).root == Root::Relative ==> cwd_content,
{
}

} // verus!
