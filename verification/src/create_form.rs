//! The "Add Custom Instance" form of the "Versions" page: its defaults, the
//! version and loader pickers, and what pressing "Create" asks for.

use vstd::prelude::*;
use crate::text::opt_view;

verus! {

/// Mod loader a new cluster is created with.
#[derive(Clone, Copy, Debug, PartialEq, Eq, Structural)]
pub enum GameLoader {
    Vanilla,
    Fabric,
    Forge,
    NeoForge,
    Quilt,
}

/// Game version offered when no version list is known.
pub open spec fn default_version_spec() -> Seq<char> {
    "1.21.1"@
}

/// The loader picked by the entry at `idx` of the loader picker; an entry
/// past the list picks the vanilla game.
pub open spec fn loader_for_index_spec(idx: usize) -> GameLoader {
    if idx == 1 {
        GameLoader::Fabric
    } else if idx == 2 {
        GameLoader::Forge
    } else if idx == 3 {
        GameLoader::NeoForge
    } else if idx == 4 {
        GameLoader::Quilt
    } else {
        GameLoader::Vanilla
    }
}

/// The loader picked by the entry at `idx` of the loader picker.
pub fn loader_for_index(idx: usize) -> (l: GameLoader)
    ensures
        l == loader_for_index_spec(idx),
{
    match idx {
        0 => GameLoader::Vanilla,
        1 => GameLoader::Fabric,
        2 => GameLoader::Forge,
        3 => GameLoader::NeoForge,
        4 => GameLoader::Quilt,
        _ => GameLoader::Vanilla,
    }
}

/// The entries of the loader picker, in order.
pub fn loader_options() -> (opts: Vec<String>)
    ensures
        opts@.map_values(|s: String| s@) == seq![
            "Vanilla"@,
            "Fabric"@,
            "Forge"@,
            "NeoForge"@,
            "Quilt"@,
        ],
{
    let mut opts: Vec<String> = Vec::new();
    opts.push(String::from_str("Vanilla"));
    opts.push(String::from_str("Fabric"));
    opts.push(String::from_str("Forge"));
    opts.push(String::from_str("NeoForge"));
    opts.push(String::from_str("Quilt"));
    assert(opts@.map_values(|s: String| s@) =~= seq![
        "Vanilla"@,
        "Fabric"@,
        "Forge"@,
        "NeoForge"@,
        "Quilt"@,
    ]);
    opts
}

/// The known versions among `found`, in order.
pub open spec fn known_versions(found: Seq<Option<Seq<char>>>) -> Seq<Seq<char>>
    decreases found.len(),
{
    if found.len() == 0 {
        Seq::empty()
    } else {
        let rest = known_versions(found.drop_last());
        match found.last() {
            Some(v) => rest.push(v),
            None => rest,
        }
    }
}

proof fn lemma_known_versions(found: Seq<Option<Seq<char>>>)
    ensures
        known_versions(found) == found.filter_map(|o: Option<Seq<char>>| o),
        forall|i: int|
            0 <= i < found.len() && (#[trigger] found[i]) is Some ==> {
                let k = known_versions(found.take(i)).len() as int;
                &&& k < known_versions(found).len()
                &&& known_versions(found)[k] == found[i]->0
            },
        forall|j: int|
            0 <= j < known_versions(found).len() ==> exists|i: int|
                0 <= i < found.len() && found[i] == Some(#[trigger] known_versions(found)[j]),
    decreases found.len(),
{
    if found.len() > 0 {
        let pre = found.drop_last();
        let x = found.last();
        lemma_known_versions(pre);
        let kf = known_versions(found);
        let kp = known_versions(pre);
        match x {
            Some(v) => {
                assert(kf =~= kp + seq![v]);
            },
            None => {},
        }
        assert forall|i: int|
            0 <= i < found.len() && (#[trigger] found[i]) is Some implies {
                let k = known_versions(found.take(i)).len() as int;
                &&& k < kf.len()
                &&& kf[k] == found[i]->0
            } by {
            if i < found.len() - 1 {
                assert(found.take(i) =~= pre.take(i));
                assert(pre[i] == found[i]);
            } else {
                assert(found.take(i) =~= pre);
            }
        }
        assert forall|j: int| 0 <= j < kf.len() implies exists|i: int|
            0 <= i < found.len() && found[i] == Some(#[trigger] kf[j]) by {
            if j < kp.len() {
                assert(kf[j] == kp[j]);
                let i = choose|i: int| 0 <= i < pre.len() && pre[i] == Some(#[trigger] kp[j]);
                assert(found[i] == pre[i]);
            } else {
                assert(found[found.len() - 1] == Some(kf[j]));
            }
        }
    }
}

/// The version picker offers every game version that the metadata names, in
/// the metadata's order and nothing else: the version of an entry comes right
/// after those of the entries before it, each entry offered is the version of
/// some entry, and the list is the metadata's versions with the unnamed ones
/// dropped. Only when no entry names a version is the default offered alone.
pub proof fn lemma_version_options_offer_every_known_version(found: Seq<Option<Seq<char>>>)
    ensures
        (exists|i: int| 0 <= i < found.len() && (#[trigger] found[i]) is Some) ==> {
            let opts = version_options_spec(found);
            &&& opts == found.filter_map(|o: Option<Seq<char>>| o)
            &&& forall|i: int|
                0 <= i < found.len() && (#[trigger] found[i]) is Some ==> {
                    let k = found.take(i).filter_map(|o: Option<Seq<char>>| o).len() as int;
                    &&& k < opts.len()
                    &&& opts[k] == found[i]->0
                }
            &&& forall|j: int|
                0 <= j < opts.len() ==> exists|i: int|
                    0 <= i < found.len() && found[i] == Some(#[trigger] opts[j])
        },
        (forall|i: int| 0 <= i < found.len() ==> (#[trigger] found[i]) is None)
            ==> version_options_spec(found) == seq![default_version_spec()],
{
    lemma_known_versions(found);
    if exists|i: int| 0 <= i < found.len() && (#[trigger] found[i]) is Some {
        let i = choose|i: int| 0 <= i < found.len() && (#[trigger] found[i]) is Some;
        assert(known_versions(found).len() > 0);
        assert forall|i: int|
            0 <= i < found.len() && (#[trigger] found[i]) is Some implies found.take(i).filter_map(
            |o: Option<Seq<char>>| o,
        ).len() == known_versions(found.take(i)).len() by {
            lemma_known_versions(found.take(i));
        }
    } else {
        if known_versions(found).len() > 0 {
            assert(exists|i: int| 0 <= i < found.len() && found[i] == Some(known_versions(found)[0]));
        }
    }
}

/// The entries of the version picker: the game versions that the metadata
/// names, in order, or the default version when it names none.
pub open spec fn version_options_spec(found: Seq<Option<Seq<char>>>) -> Seq<Seq<char>> {
    if known_versions(found).len() == 0 {
        seq![default_version_spec()]
    } else {
        known_versions(found)
    }
}

/// The entries of the version picker, from the game version of each version
/// metadata entry, where it has one.
pub fn version_options(found: &Vec<Option<String>>) -> (opts: Vec<String>)
    ensures
        opts@.map_values(|s: String| s@) == version_options_spec(
            found@.map_values(|k: Option<String>| opt_view(k)),
        ),
{
    let ghost views = found@.map_values(|k: Option<String>| opt_view(k));
    let mut opts: Vec<String> = Vec::new();
    let mut i: usize = 0;
    let n = found.len();
    while i < n
        invariant
            n == views.len(),
            i <= n,
            views == found@.map_values(|k: Option<String>| opt_view(k)),
            opts@.map_values(|s: String| s@) == known_versions(views.take(i as int)),
        decreases n - i,
    {
        assert(views.take(i + 1).drop_last() =~= views.take(i as int));
        match &found[i] {
            Some(v) => {
                let ghost before = opts@;
                opts.push(v.clone());
                assert(opts@.map_values(|s: String| s@) =~= before.map_values(|s: String| s@).push(
                    v@,
                ));
            },
            None => {},
        }
        i = i + 1;
    }
    assert(views.take(n as int) =~= views);
    if opts.len() == 0 {
        opts.push(String::from_str("1.21.1"));
        assert(opts@.map_values(|s: String| s@) =~= seq![default_version_spec()]);
    }
    opts
}

/// What pressing "Create" asks for.
#[derive(Debug, PartialEq, Eq)]
pub struct CreateRequest {
    pub name: String,
    pub version: String,
    pub loader: GameLoader,
}

/// The state of the form.
#[derive(Debug)]
pub struct CreateInstanceForm {
    /// The form is open.
    pub show: bool,
    pub name: String,
    pub version: String,
    pub loader: GameLoader,
}

impl CreateInstanceForm {
    /// A closed form proposing a Fabric instance of the default version named
    /// "Custom Instance".
    pub fn new() -> (f: Self)
        ensures
            !f.show,
            f.name@ == "Custom Instance"@,
            f.version@ == default_version_spec(),
            f.loader == GameLoader::Fabric,
    {
        CreateInstanceForm {
            show: false,
            name: String::from_str("Custom Instance"),
            version: String::from_str("1.21.1"),
            loader: GameLoader::Fabric,
        }
    }

    /// Opens a closed form and closes an open one, keeping what was entered.
    pub fn toggle(&mut self)
        ensures
            final(self).show == !old(self).show,
            final(self).name == old(self).name,
            final(self).version == old(self).version,
            final(self).loader == old(self).loader,
    {
        self.show = !self.show;
    }

    /// Text of the button that opens and closes the form.
    pub fn toggle_label(&self) -> (s: &'static str)
        ensures
            s@ == if self.show {
                "Cancel"@
            } else {
                "Add Custom Instance"@
            },
    {
        if self.show {
            "Cancel"
        } else {
            "Add Custom Instance"
        }
    }

    /// Takes the version at `idx` of the picker's `options`; an index past
    /// them leaves the version as it is.
    pub fn select_version(&mut self, options: &Vec<String>, idx: usize)
        ensures
            final(self).version@ == if idx < options@.len() {
                options@[idx as int]@
            } else {
                old(self).version@
            },
            final(self).show == old(self).show,
            final(self).name == old(self).name,
            final(self).loader == old(self).loader,
    {
        if idx < options.len() {
            self.version = options[idx].clone();
        }
    }

    /// Takes the loader at `idx` of the loader picker.
    pub fn select_loader(&mut self, idx: usize)
        ensures
            final(self).loader == loader_for_index_spec(idx),
            final(self).show == old(self).show,
            final(self).name == old(self).name,
            final(self).version == old(self).version,
    {
        self.loader = loader_for_index(idx);
    }

    /// Asks for an instance with what the form holds, and closes the form.
    pub fn submit(&mut self) -> (req: CreateRequest)
        ensures
            req.name@ == old(self).name@,
            req.version@ == old(self).version@,
            req.loader == old(self).loader,
            !final(self).show,
            final(self).name == old(self).name,
            final(self).version == old(self).version,
            final(self).loader == old(self).loader,
    {
        self.show = false;
        CreateRequest { name: self.name.clone(), version: self.version.clone(), loader: self.loader }
    }
}

} // verus!
