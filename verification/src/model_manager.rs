//! The device models of a model directory, kept by name.
//!
//! Adding a model under a name that the manager already holds replaces that
//! model, so each name stands for one model. Reading and writing the model
//! files is the caller's part: it hands in the models it loaded and writes
//! the ones it creates or copies.

use vstd::prelude::*;
use std::collections::HashMap;
use std::path::PathBuf;
use crate::error::{PoKeysError, Result};
use crate::models::{DeviceModel, PinModel, model_validation_outcome};
use crate::text::{str_equal, string_of};

verus! {

broadcast use vstd::std_specs::hash::group_hash_axioms;

#[verifier::external_type_specification]
#[verifier::external_body]
pub struct ExPathBuf(PathBuf);

/// The models of a model directory, by name.
pub struct ModelManager {
    model_dir: PathBuf,
    models: Vec<(String, DeviceModel)>,
}

/// Name and model of each entry, the name as characters.
pub open spec fn named(v: Seq<(String, DeviceModel)>) -> Seq<(Seq<char>, DeviceModel)> {
    v.map_values(|e: (String, DeviceModel)| (e.0@, e.1))
}

/// The position of the last entry named `name`.
pub open spec fn last_named(e: Seq<(Seq<char>, DeviceModel)>, name: Seq<char>) -> Option<int>
    decreases e.len(),
{
    if e.len() == 0 {
        None
    } else if e.last().0 == name {
        Some(e.len() - 1)
    } else {
        last_named(e.drop_last(), name)
    }
}

/// The model kept under `name`.
pub open spec fn model_named(e: Seq<(Seq<char>, DeviceModel)>, name: Seq<char>) -> Option<DeviceModel> {
    match last_named(e, name) {
        Some(i) => Some(e[i].1),
        None => None,
    }
}

/// The entries after keeping `model` under `name`: the entry of that name
/// replaced, or a new one at the end.
pub open spec fn with_model(e: Seq<(Seq<char>, DeviceModel)>, name: Seq<char>, model: DeviceModel) -> Seq<
    (Seq<char>, DeviceModel),
> {
    match last_named(e, name) {
        Some(i) => e.update(i, (name, model)),
        None => e.push((name, model)),
    }
}

/// The entries not named `name`, in order.
pub open spec fn without_name(e: Seq<(Seq<char>, DeviceModel)>, name: Seq<char>) -> Seq<(Seq<char>, DeviceModel)>
    decreases e.len(),
{
    if e.len() == 0 {
        e
    } else {
        without_name(e.drop_last(), name) + (if e.last().0 == name { Seq::empty() } else { seq![e.last()] })
    }
}

/// Whether two pin maps list the same pins with the same capabilities and
/// activity.
pub open spec fn same_pins(a: Map<u8, PinModel>, b: Map<u8, PinModel>) -> bool {
    &&& a.dom() == b.dom()
    &&& forall|k: u8| #[trigger] a.contains_key(k) ==> a[k].capabilities@ == b[k].capabilities@ && a[k].active
        == b[k].active
}

proof fn lemma_last_named(e: Seq<(Seq<char>, DeviceModel)>, name: Seq<char>)
    ensures
        last_named(e, name) matches Some(i) ==> 0 <= i < e.len() && e[i].0 == name,
        last_named(e, name) is None ==> forall|k: int| 0 <= k < e.len() ==> (#[trigger] e[k]).0 != name,
    decreases e.len(),
{
    if e.len() > 0 && e.last().0 != name {
        lemma_last_named(e.drop_last(), name);
        assert forall|k: int| 0 <= k < e.len() && last_named(e, name) is None implies (#[trigger] e[k]).0 != name by {
            if k < e.len() - 1 {
                assert(e.drop_last()[k] == e[k]);
            }
        }
    }
}

/// A copy of a list of strings.
fn copy_strings(v: &Vec<String>) -> (r: Vec<String>)
    ensures
        r@ == v@,
{
    let mut r: Vec<String> = Vec::new();
    let n = v.len();
    let mut i: usize = 0;
    while i < n
        invariant
            n == v@.len(),
            i <= n,
            r@ == v@.take(i as int),
        decreases n - i,
    {
        r.push(v[i].clone());
        assert(v@.take(i + 1) =~= v@.take(i as int).push(v@[i as int]));
        i = i + 1;
    }
    assert(v@.take(n as int) =~= v@);
    r
}

/// A copy of a pin map.
fn copy_pins(pins: &HashMap<u8, PinModel>) -> (r: HashMap<u8, PinModel>)
    ensures
        same_pins(r@, pins@),
{
    let mut r: HashMap<u8, PinModel> = HashMap::new();
    let mut k: u16 = 0;
    while k < 256
        invariant
            k <= 256,
            forall|p: u8| #[trigger] r@.contains_key(p) <==> (p < k && pins@.contains_key(p)),
            forall|p: u8| #[trigger] r@.contains_key(p) ==> r@[p].capabilities@ == pins@[p].capabilities@
                && r@[p].active == pins@[p].active,
        decreases 256 - k,
    {
        let key = k as u8;
        match pins.get(&key) {
            Some(pin) => {
                let copy = PinModel { capabilities: copy_strings(&pin.capabilities), active: pin.active };
                r.insert(key, copy);
            },
            None => {},
        }
        k = k + 1;
    }
    assert(r@.dom() =~= pins@.dom());
    r
}

proof fn lemma_last_named_same(s: Seq<(Seq<char>, DeviceModel)>, t: Seq<(Seq<char>, DeviceModel)>, n: Seq<char>)
    requires
        s.len() == t.len(),
        forall|k: int| 0 <= k < s.len() ==> ((#[trigger] s[k]).0 == n) == (t[k].0 == n),
    ensures
        last_named(s, n) == last_named(t, n),
    decreases s.len(),
{
    if s.len() > 0 {
        assert forall|k: int| 0 <= k < s.len() - 1 implies ((#[trigger] s.drop_last()[k]).0 == n) == (
        t.drop_last()[k].0 == n) by {
            assert(s.drop_last()[k] == s[k]);
            assert(t.drop_last()[k] == t[k]);
        }
        lemma_last_named_same(s.drop_last(), t.drop_last(), n);
    }
}

proof fn lemma_last_named_is_last(e: Seq<(Seq<char>, DeviceModel)>, n: Seq<char>)
    ensures
        last_named(e, n) matches Some(i) ==> forall|k: int| i < k < e.len() ==> (#[trigger] e[k]).0 != n,
    decreases e.len(),
{
    if e.len() > 0 && e.last().0 != n {
        lemma_last_named_is_last(e.drop_last(), n);
        lemma_last_named(e, n);
        match last_named(e, n) {
            Some(i) => {
                assert forall|k: int| i < k < e.len() implies (#[trigger] e[k]).0 != n by {
                    if k < e.len() - 1 {
                        assert(e.drop_last()[k] == e[k]);
                    }
                }
            },
            None => {},
        }
    }
}

/// Keeping a model under a name makes it the model of that name, and leaves
/// the model of every other name as it was.
pub proof fn lemma_put_then_get(e: Seq<(Seq<char>, DeviceModel)>, name: Seq<char>, model: DeviceModel, other: Seq<char>)
    ensures
        model_named(with_model(e, name, model), name) == Some(model),
        other != name ==> model_named(with_model(e, name, model), other) == model_named(e, other),
{
    lemma_last_named(e, name);
    lemma_last_named_is_last(e, name);
    match last_named(e, name) {
        Some(i) => {
            let t = e.update(i, (name, model));
            assert forall|k: int| 0 <= k < e.len() implies ((#[trigger] e[k]).0 == name) == (t[k].0 == name) by {}
            lemma_last_named_same(e, t, name);
            if other != name {
                assert forall|k: int| 0 <= k < e.len() implies ((#[trigger] e[k]).0 == other) == (t[k].0 == other) by {}
                lemma_last_named_same(e, t, other);
                lemma_last_named(e, other);
                match last_named(e, other) {
                    Some(p) => {
                        assert(p != i);
                        assert(t[p] == e[p]);
                    },
                    None => {},
                }
            }
        },
        None => {
            let t = e.push((name, model));
            assert(t.drop_last() =~= e);
            if other != name {
                lemma_last_named(e, other);
                match last_named(e, other) {
                    Some(p) => {
                        assert(t[p] == e[p]);
                    },
                    None => {},
                }
            }
        },
    }
}

/// Forgetting a name leaves no model under it, and leaves the model of
/// every other name as it was.
pub proof fn lemma_forget_then_get(e: Seq<(Seq<char>, DeviceModel)>, name: Seq<char>, other: Seq<char>)
    ensures
        model_named(without_name(e, name), name) is None,
        other != name ==> model_named(without_name(e, name), other) == model_named(e, other),
    decreases e.len(),
{
    if e.len() > 0 {
        let w = without_name(e.drop_last(), name);
        lemma_forget_then_get(e.drop_last(), name, other);
        lemma_last_named(w, other);
        lemma_last_named(e.drop_last(), other);
        if e.last().0 != name {
            let t = w.push(e.last());
            assert(t.drop_last() =~= w);
            assert(without_name(e, name) =~= t);
        } else {
            assert(without_name(e, name) =~= w);
        }
    }
}

impl ModelManager {
    /// The named models, in the order they were first added.
    pub closed spec fn entries(&self) -> Seq<(Seq<char>, DeviceModel)> {
        named(self.models@)
    }

    /// The model directory.
    pub closed spec fn dir(&self) -> PathBuf {
        self.model_dir
    }

    /// A manager of `model_dir` that holds no model yet.
    pub fn with_dir(model_dir: PathBuf) -> (r: Self)
        ensures
            r.entries() == Seq::<(Seq<char>, DeviceModel)>::empty(),
            r.dir() == model_dir,
    {
        let r = ModelManager { model_dir, models: Vec::new() };
        assert(named(r.models@) =~= Seq::<(Seq<char>, DeviceModel)>::empty());
        r
    }

    /// The position of the last model named `name`.
    fn position(&self, name: &str) -> (r: Option<usize>)
        ensures
            match r {
                Some(i) => last_named(self.entries(), name@) == Some(i as int),
                None => last_named(self.entries(), name@) is None,
            },
    {
        let mut i: usize = self.models.len();
        assert(self.entries().take(i as int) =~= self.entries());
        while i > 0
            invariant
                i <= self.models@.len(),
                last_named(self.entries(), name@) == last_named(self.entries().take(i as int), name@),
            decreases i,
        {
            let ghost e = self.entries().take(i as int);
            assert(e.last() == self.entries()[i - 1]);
            if str_equal(self.models[i - 1].0.as_str(), name) {
                return Some(i - 1);
            }
            assert(e.drop_last() =~= self.entries().take(i - 1));
            i = i - 1;
        }
        None
    }

    /// The model kept under `name`.
    pub fn get_model(&self, name: &str) -> (r: Option<&DeviceModel>)
        ensures
            match r {
                Some(m) => model_named(self.entries(), name@) == Some(*m),
                None => model_named(self.entries(), name@) is None,
            },
    {
        match self.position(name) {
            Some(i) => {
                proof {
                    lemma_last_named(self.entries(), name@);
                }
                assert(self.entries()[i as int].1 == self.models@[i as int].1);
                Some(&self.models[i].1)
            },
            None => None,
        }
    }

    /// The model kept under `name`, to change in place.
    pub fn get_model_mut(&mut self, name: &str) -> (r: Option<&mut DeviceModel>)
        ensures
            final(self).dir() == old(self).dir(),
            match r {
                Some(m) => last_named(old(self).entries(), name@) matches Some(i) && *m == old(self).entries()[i].1
                    && final(self).entries() == old(self).entries().update(i, (name@, *final(m))),
                None => last_named(old(self).entries(), name@) is None && final(self).entries() == old(
                    self,
                ).entries(),
            },
    {
        match self.position(name) {
            Some(i) => {
                proof {
                    lemma_last_named(self.entries(), name@);
                }
                let e = &mut self.models[i];
                Some(&mut e.1)
            },
            None => None,
        }
    }

    /// Every model with its name, in the order they were first added.
    pub fn get_all_models(&self) -> (r: &Vec<(String, DeviceModel)>)
        ensures
            named(r@) == self.entries(),
    {
        &self.models
    }

    /// Keep `model` under `name`, in place of the model of that name.
    pub fn put_model(&mut self, name: String, model: DeviceModel)
        ensures
            final(self).entries() == with_model(old(self).entries(), name@, model),
            final(self).dir() == old(self).dir(),
    {
        let ghost old_models = self.models@;
        match self.position(name.as_str()) {
            Some(i) => {
                proof {
                    lemma_last_named(self.entries(), name@);
                }
                let ghost entry = (name@, model);
                self.models.set(i, (name, model));
                assert(named(self.models@) =~= named(old_models).update(i as int, entry));
            },
            None => {
                let ghost entry = (name@, model);
                self.models.push((name, model));
                assert(named(self.models@) =~= named(old_models).push(entry));
            },
        }
    }

    /// Forget the model named `name`.
    pub fn forget_model(&mut self, name: &str)
        ensures
            final(self).entries() == without_name(old(self).entries(), name@),
            final(self).dir() == old(self).dir(),
    {
        let ghost e = self.entries();
        let ghost mut j: int = 0;
        let mut i: usize = 0;
        assert(e.take(0) =~= Seq::<(Seq<char>, DeviceModel)>::empty());
        assert(e.skip(0) =~= e);
        while i < self.models.len()
            invariant
                0 <= j <= e.len(),
                named(self.models@) == without_name(e.take(j), name@) + e.skip(j),
                i == without_name(e.take(j), name@).len(),
                self.model_dir == old(self).model_dir,
            decreases e.len() - j,
        {
            let ghost w = without_name(e.take(j), name@);
            let ghost before = self.models@;
            assert(named(before)[i as int] == e[j]);
            assert(e.take(j + 1).drop_last() =~= e.take(j));
            assert(e.take(j + 1).last() == e[j]);
            if str_equal(self.models[i].0.as_str(), name) {
                let _removed = self.models.remove(i);
                assert(named(self.models@) =~= named(before).remove(i as int));
                assert((w + e.skip(j)).remove(i as int) =~= w + e.skip(j + 1));
            } else {
                assert(named(before) =~= w.push(e[j]) + e.skip(j + 1));
                i = i + 1;
            }
            proof {
                j = j + 1;
            }
        }
        assert(j == e.len());
        assert(e.take(j) =~= e);
        assert(named(self.models@) =~= without_name(e, name@));
    }

    /// Forget every model.
    pub fn clear_models(&mut self)
        ensures
            final(self).entries() == Seq::<(Seq<char>, DeviceModel)>::empty(),
            final(self).dir() == old(self).dir(),
    {
        self.models = Vec::new();
        assert(named(self.models@) =~= Seq::<(Seq<char>, DeviceModel)>::empty());
    }

    /// Check the model named `name` against the model rules; a model that
    /// the manager does not hold is not found.
    pub fn validate_model(&self, name: &str) -> (r: Result<()>)
        ensures
            match model_named(self.entries(), name@) {
                None => r matches Err(PoKeysError::ModelLoadError(a, b)) && a@ == name@ && b@ == "Model not found"@,
                Some(m) => model_validation_outcome(m, r),
            },
    {
        match self.get_model(name) {
            None => Err(PoKeysError::ModelLoadError(string_of(name), string_of("Model not found"))),
            Some(model) => model.validate(),
        }
    }

    /// The model directory.
    pub fn get_model_dir(&self) -> (r: &PathBuf)
        ensures
            *r == self.dir(),
    {
        &self.model_dir
    }

    /// A copy of the model named `source`, named `target`; a model that the
    /// manager does not hold is not found.
    pub fn copy_of(&self, source: &str, target: &str) -> (r: Result<DeviceModel>)
        ensures
            match model_named(self.entries(), source@) {
                None => r matches Err(PoKeysError::ModelLoadError(a, b)) && a@ == source@ && b@ == "Model not found"@,
                Some(m) => r matches Ok(c) && c.name@ == target@ && same_pins(c.pins@, m.pins@),
            },
    {
        match self.get_model(source) {
            None => Err(PoKeysError::ModelLoadError(string_of(source), string_of("Model not found"))),
            Some(model) => Ok(DeviceModel { name: string_of(target), pins: copy_pins(&model.pins) }),
        }
    }
}

/// A model named `name` with the pins `pins`.
pub fn model_of(name: &str, pins: HashMap<u8, PinModel>) -> (m: DeviceModel)
    ensures
        m.name@ == name@,
        m.pins == pins,
{
    DeviceModel { name: string_of(name), pins }
}

/// Whether a watched file event is a model change to report: a file created
/// or modified, with the extension `yaml`, and not reported in the last
/// 100 ms (`since_last_ns` is the time in nanoseconds since its path was
/// last reported, if it ever was).
pub fn is_model_change(created_or_modified: bool, extension: Option<&str>, since_last_ns: Option<u128>) -> (r: bool)
    ensures
        r == (created_or_modified && (extension matches Some(e) && e@ == "yaml"@)
            && (since_last_ns matches Some(t) ==> t > 100_000_000)),
{
    if !created_or_modified {
        return false;
    }
    let is_yaml = match extension {
        Some(e) => str_equal(e, "yaml"),
        None => false,
    };
    if !is_yaml {
        return false;
    }
    match since_last_ns {
        Some(t) => t > 100_000_000,
        None => true,
    }
}

} // verus!
