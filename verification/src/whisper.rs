//! The models of the built-in backend: how they are named, loaded and selected.
//!
//! A loaded model is never looked into, so its type is a parameter.
use vstd::prelude::*;
use vstd::string::*;

use crate::audio::TARGET_SAMPLE_RATE;
use crate::error::{Error, ErrorView};
use crate::incremental::{empty_transcriber, BufferedSegmentTranscriber};
use crate::opts::Opts;
use crate::stream::WhisperStream;
use crate::text::{
    file_name, final_component, is_file_name_of, is_portable_path, join, joined, sort, sorted,
    texts, trim, trimmed, FileName,
};

verus! {

/// A result in which the strings are sequences of characters.
pub open spec fn text_result(r: Result<String, Error>) -> Result<Seq<char>, ErrorView> {
    match r {
        Ok(text) => Ok(text@),
        Err(error) => Err(error@),
    }
}

/// What stands at a path of the file system.
#[derive(Debug, Clone, Copy, PartialEq, Eq, Structural)]
pub enum PathStatus {
    /// Nothing.
    Absent,
    /// Something that is not a file.
    NotAFile,
    /// A file.
    File,
}

/// Why the path of the voice activity detection model is not accepted, if it is not.
pub open spec fn vad_path_error(path: Seq<char>, status: PathStatus) -> Option<ErrorView> {
    if trimmed(path).len() == 0 {
        Some(ErrorView::VadModelPathMissing)
    } else {
        match status {
            PathStatus::Absent => Some(ErrorView::VadModelNotFound(path)),
            PathStatus::NotAFile => Some(ErrorView::VadModelNotAFile(path)),
            PathStatus::File => None,
        }
    }
}

/// The key of a model at `path` whose file name is `name`: that name, unless it is missing or
/// blank.
pub open spec fn named_model_key(path: Seq<char>, name: FileName) -> Result<Seq<char>, ErrorView> {
    match name {
        FileName::Missing => Err(ErrorView::ModelPathWithoutFileName(path)),
        FileName::NotUnicode => Err(ErrorView::ModelFileNameNotUnicode(path)),
        FileName::Name(name) => if trimmed(name@).len() == 0 {
            Err(ErrorView::ModelFileNameEmpty(path))
        } else {
            Ok(name@)
        },
    }
}

/// The key of a model at `path` where `/` alone separates components, as everywhere on a portable
/// path: its final component, unless that is missing or blank.
pub open spec fn slash_model_key(path: Seq<char>) -> Result<Seq<char>, ErrorView> {
    match final_component(path) {
        None => Err(ErrorView::ModelPathWithoutFileName(path)),
        Some(name) => if trimmed(name).len() == 0 {
            Err(ErrorView::ModelFileNameEmpty(path))
        } else {
            Ok(name)
        },
    }
}

/// The key under which a model at `path` with the file name `name` is added to models with the
/// keys `keys`, or why it is not.
pub open spec fn admitted_key(keys: Seq<Seq<char>>, path: Seq<char>, name: FileName) -> Result<
    Seq<char>,
    ErrorView,
> {
    if trimmed(path).len() == 0 {
        Err(ErrorView::ModelPathMissing)
    } else {
        match named_model_key(path, name) {
            Err(error) => Err(error),
            Ok(key) => if keys.contains(key) {
                Err(ErrorView::DuplicateModelKey(key, path))
            } else {
                Ok(key)
            },
        }
    }
}

/// The keys of models, in the order of the models.
pub open spec fn keys_of<C>(models: Seq<(Seq<char>, C)>) -> Seq<Seq<char>> {
    models.map_values(|model: (Seq<char>, C)| model.0)
}

/// The first `n` models, or why one of them was not added, given the file name of each path
/// and what came of loading each model.
pub open spec fn loaded_models<C>(
    paths: Seq<String>,
    names: Seq<FileName>,
    loads: Seq<Result<C, String>>,
    n: int,
) -> Result<Seq<(Seq<char>, C)>, ErrorView>
    decreases n,
{
    if n <= 0 {
        Ok(Seq::empty())
    } else {
        match loaded_models(paths, names, loads, n - 1) {
            Err(error) => Err(error),
            Ok(models) => match admitted_key(keys_of(models), paths[n - 1]@, names[n - 1]) {
                Err(error) => Err(error),
                Ok(key) => match loads[n - 1] {
                    Err(words) => Err(ErrorView::Outside(words@)),
                    Ok(context) => Ok(models.push((key, context))),
                },
            },
        }
    }
}

/// What comes of loading the models at `paths`: a backend with all of them, or the first error.
pub open spec fn is_outcome<C>(
    r: Result<WhisperBackend<C>, Error>,
    paths: Seq<String>,
    names: Seq<FileName>,
    loads: Seq<Result<C, String>>,
    vad_model_path: Seq<char>,
) -> bool {
    match loaded_models(paths, names, loads, paths.len() as int) {
        Err(reason) => r matches Err(error) && error@ == reason,
        Ok(models) => if models.len() == 0 {
            r matches Err(error) && error@ == ErrorView::NoModels
        } else {
            r matches Ok(backend) && backend@ == (Models { models, vad_model_path })
        },
    }
}

/// If the path at `i` was looked at, its file name is what asking for it gave, and if a model was
/// loaded from it, what came of that is what `load` returned.
pub open spec fn can_happen_at<C, F: Fn(&String) -> Result<C, String>>(
    paths: Seq<String>,
    names: Seq<FileName>,
    loads: Seq<Result<C, String>>,
    load: F,
    i: int,
) -> bool {
    match loaded_models(paths, names, loads, i) {
        Err(_) => true,
        Ok(models) => {
            &&& is_file_name_of(paths[i]@, names[i])
            &&& admitted_key(keys_of(models), paths[i]@, names[i]) is Ok ==> call_ensures(
                load,
                (&paths[i],),
                loads[i],
            )
        },
    }
}

/// `names` and `loads` are what asking for file names and calling `load` yielded for
/// the first `n` paths, as far as they were looked at.
pub open spec fn can_happen_until<C, F: Fn(&String) -> Result<C, String>>(
    paths: Seq<String>,
    names: Seq<FileName>,
    loads: Seq<Result<C, String>>,
    load: F,
    n: int,
) -> bool {
    forall|i: int| 0 <= i < n ==> #[trigger] can_happen_at(paths, names, loads, load, i)
}

/// `names` and `loads` are what asking for file names and calling `load` yielded for `paths`, as
/// far as they were looked at.
pub open spec fn can_happen<C, F: Fn(&String) -> Result<C, String>>(
    paths: Seq<String>,
    names: Seq<FileName>,
    loads: Seq<Result<C, String>>,
    load: F,
) -> bool {
    can_happen_until(paths, names, loads, load, paths.len() as int)
}

proof fn lemma_same_models<C>(
    paths: Seq<String>,
    names: Seq<FileName>,
    loads: Seq<Result<C, String>>,
    name: FileName,
    outcome: Result<C, String>,
    n: int,
)
    requires
        n <= names.len(),
        n <= loads.len(),
    ensures
        loaded_models(paths, names.push(name), loads.push(outcome), n) == loaded_models(
            paths,
            names,
            loads,
            n,
        ),
    decreases n,
{
    if n > 0 {
        lemma_same_models(paths, names, loads, name, outcome, n - 1);
    }
}

proof fn lemma_same_start<C, F: Fn(&String) -> Result<C, String>>(
    paths: Seq<String>,
    names: Seq<FileName>,
    loads: Seq<Result<C, String>>,
    name: FileName,
    outcome: Result<C, String>,
    load: F,
    n: int,
)
    requires
        names.len() == n,
        loads.len() == n,
        0 <= n < paths.len(),
        can_happen_until(paths, names, loads, load, n),
        is_file_name_of(paths[n]@, name),
        match loaded_models(paths, names, loads, n) {
            Err(_) => true,
            Ok(models) => admitted_key(keys_of(models), paths[n]@, name) is Ok ==> call_ensures(
                load,
                (&paths[n],),
                outcome,
            ),
        },
    ensures
        can_happen_until(paths, names.push(name), loads.push(outcome), load, n + 1),
        loaded_models(paths, names.push(name), loads.push(outcome), n) == loaded_models(
            paths,
            names,
            loads,
            n,
        ),
{
    lemma_same_models(paths, names, loads, name, outcome, n);
    assert forall|i: int| 0 <= i < n + 1 implies #[trigger] can_happen_at(
        paths,
        names.push(name),
        loads.push(outcome),
        load,
        i,
    ) by {
        lemma_same_models(paths, names, loads, name, outcome, i);
        assert(i < n ==> can_happen_at(paths, names, loads, load, i));
    }
}

proof fn lemma_first_error<C>(
    paths: Seq<String>,
    names: Seq<FileName>,
    loads: Seq<Result<C, String>>,
    k: int,
    n: int,
    error: ErrorView,
)
    requires
        0 < k <= n,
        loaded_models(paths, names, loads, k) == Err::<Seq<(Seq<char>, C)>, ErrorView>(error),
    ensures
        loaded_models(paths, names, loads, n) == Err::<Seq<(Seq<char>, C)>, ErrorView>(error),
    decreases n,
{
    if k < n {
        lemma_first_error(paths, names, loads, k, n - 1, error);
    }
}

proof fn lemma_nothing_after<C, F: Fn(&String) -> Result<C, String>>(
    paths: Seq<String>,
    names: Seq<FileName>,
    loads: Seq<Result<C, String>>,
    load: F,
    k: int,
)
    requires
        0 < k,
        can_happen_until(paths, names, loads, load, k),
        loaded_models(paths, names, loads, k) is Err,
    ensures
        can_happen(paths, names, loads, load),
{
    let error = loaded_models(paths, names, loads, k)->Err_0;
    assert forall|i: int| 0 <= i < paths.len() implies #[trigger] can_happen_at(
        paths,
        names,
        loads,
        load,
        i,
    ) by {
        if i >= k {
            lemma_first_error(paths, names, loads, k, i, error);
        }
    }
}

/// A loaded model and its key.
pub struct NamedModel<C> {
    /// The key by which the model is selected.
    pub key: String,
    /// The model.
    pub context: C,
}

/// The built-in backend: one or more models, of which the first is the default, and the path
/// of the voice activity detection model.
pub struct WhisperBackend<C> {
    first_model_key: String,
    first_model: C,
    models: Vec<NamedModel<C>>,
    vad_model_path: String,
}

/// What a [`WhisperBackend`] stands for.
#[verifier::ext_equal]
pub struct Models<C> {
    /// The models with their keys, in the order in which they were loaded.
    pub models: Seq<(Seq<char>, C)>,
    /// The path of the voice activity detection model.
    pub vad_model_path: Seq<char>,
}

impl<C> Models<C> {
    /// There is a model, and no two have the same key.
    pub open spec fn inv(self) -> bool {
        &&& self.models.len() > 0
        &&& self.keys().no_duplicates()
    }

    /// The keys, in the order of the models.
    pub open spec fn keys(self) -> Seq<Seq<char>> {
        keys_of(self.models)
    }

    /// The key of the first model.
    pub open spec fn default_key(self) -> Seq<char> {
        self.models[0].0
    }

    /// The keys in ascending order, as one text.
    pub open spec fn key_list(self) -> Seq<char> {
        joined(sorted(self.keys()), ", "@)
    }

    /// `context` is the model with that key.
    pub open spec fn is_model(self, key: Seq<char>, context: C) -> bool {
        self.models.contains((key, context))
    }

    /// The key that a request selects: the default one where it asks for none.
    pub open spec fn selected_key(self, asked: Option<Seq<char>>) -> Result<Seq<char>, ErrorView> {
        match asked {
            None => Ok(self.default_key()),
            Some(key) => if self.keys().contains(key) {
                Ok(key)
            } else {
                Err(ErrorView::UnknownModelKey(key, self.key_list()))
            },
        }
    }
}

/// The models of a vector of them.
pub open spec fn named<C>(models: Seq<NamedModel<C>>) -> Seq<(Seq<char>, C)> {
    models.map_values(|model: NamedModel<C>| (model.key@, model.context))
}

impl<C> View for WhisperBackend<C> {
    type V = Models<C>;

    closed spec fn view(&self) -> Models<C> {
        Models {
            models: seq![(self.first_model_key@, self.first_model)] + named(self.models@),
            vad_model_path: self.vad_model_path@,
        }
    }
}

/// Reads the key of a model at `model_path` off its file name.
pub fn model_key(model_path: &str, file_name: FileName) -> (r: Result<String, Error>)
    ensures
        text_result(r) == named_model_key(model_path@, file_name),
{
    match file_name {
        FileName::Missing => Err(Error::ModelPathWithoutFileName(model_path.to_owned())),
        FileName::NotUnicode => Err(Error::ModelFileNameNotUnicode(model_path.to_owned())),
        FileName::Name(name) => {
            if trim(name.as_str()).is_empty() {
                Err(Error::ModelFileNameEmpty(model_path.to_owned()))
            } else {
                Ok(name)
            }
        },
    }
}

fn has_key<C>(models: &Vec<NamedModel<C>>, key: &String) -> (r: bool)
    ensures
        r == keys_of(named(models@)).contains(key@),
{
    for i in 0..models.len()
        invariant
            forall|j: int| 0 <= j < i ==> #[trigger] models@[j].key@ != key@,
    {
        if models[i].key == *key {
            proof {
                assert(keys_of(named(models@))[i as int] == key@);
            }
            return true;
        }
    }
    proof {
        assert forall|j: int| 0 <= j < models@.len() implies #[trigger] keys_of(named(models@))[j]
            != key@ by {
            assert(models@[j].key@ != key@);
        }
    }
    false
}

/// The key under which a model at `model_path` with that file name is added to `models`.
pub fn admission_key<C>(
    models: &Vec<NamedModel<C>>,
    model_path: &str,
    file_name: FileName,
) -> (r: Result<String, Error>)
    ensures
        text_result(r) == admitted_key(keys_of(named(models@)), model_path@, file_name),
{
    if trim(model_path).is_empty() {
        return Err(Error::ModelPathMissing);
    }
    let key = match model_key(model_path, file_name) {
        Ok(key) => key,
        Err(error) => {
            return Err(error);
        },
    };
    if has_key(models, &key) {
        return Err(Error::DuplicateModelKey(key, model_path.to_owned()));
    }
    Ok(key)
}

/// Checks the path of the voice activity detection model, given what stands there.
pub fn check_vad_path(vad_model_path: &str, status: PathStatus) -> (r: Result<(), Error>)
    ensures
        match r {
            Ok(()) => vad_path_error(vad_model_path@, status) is None,
            Err(error) => vad_path_error(vad_model_path@, status) == Some(error@),
        },
{
    if trim(vad_model_path).is_empty() {
        return Err(Error::VadModelPathMissing);
    }
    match status {
        PathStatus::Absent => Err(Error::VadModelNotFound(vad_model_path.to_owned())),
        PathStatus::NotAFile => Err(Error::VadModelNotAFile(vad_model_path.to_owned())),
        PathStatus::File => Ok(()),
    }
}

impl<C> WhisperBackend<C> {
    #[verifier::type_invariant]
    spec fn type_inv(self) -> bool {
        self@.keys().no_duplicates()
    }

    /// Loads the models at `model_paths`, in order, each with `load`, which says in words why
    /// it failed where it does. Keys are taken from the file names, not from the full paths.
    ///
    /// `vad_status` is what stands at `vad_model_path`. Loading stops at the first error.
    pub fn new<F: Fn(&String) -> Result<C, String>>(
        model_paths: &Vec<String>,
        vad_model_path: &str,
        vad_status: PathStatus,
        load: F,
    ) -> (r: Result<Self, Error>)
        requires
            forall|path: &String| call_requires(load, (path,)),
        ensures
            match vad_path_error(vad_model_path@, vad_status) {
                Some(reason) => r matches Err(error) && error@ == reason,
                None => exists|names: Seq<FileName>, loads: Seq<Result<C, String>>|
                    {
                        &&& #[trigger] can_happen(model_paths@, names, loads, load)
                        &&& is_outcome(r, model_paths@, names, loads, vad_model_path@)
                    },
            },
            r matches Ok(backend) ==> backend@.inv(),
    {
        if let Err(error) = check_vad_path(vad_model_path, vad_status) {
            return Err(error);
        }
        let mut models: Vec<NamedModel<C>> = Vec::new();
        let ghost mut names: Seq<FileName> = Seq::empty();
        let ghost mut loads: Seq<Result<C, String>> = Seq::empty();
        assert(named(models@) == Seq::<(Seq<char>, C)>::empty());
        for i in 0..model_paths.len()
            invariant
                vad_path_error(vad_model_path@, vad_status) is None,
                forall|path: &String| call_requires(load, (path,)),
                names.len() == i,
                loads.len() == i,
                loaded_models(model_paths@, names, loads, i as int) == Ok::<
                    Seq<(Seq<char>, C)>,
                    ErrorView,
                >(named(models@)),
                keys_of(named(models@)).no_duplicates(),
                can_happen_until(model_paths@, names, loads, load, i as int),
        {
            let model_path = &model_paths[i];
            let asked = file_name(model_path.as_str());
            let ghost name = asked;
            let key = match admission_key(&models, model_path.as_str(), asked) {
                Ok(key) => key,
                Err(error) => {
                    proof {
                        let some_load: Result<C, String> = arbitrary();
                        lemma_same_start(
                            model_paths@,
                            names,
                            loads,
                            name,
                            some_load,
                            load,
                            i as int,
                        );
                        lemma_first_error(
                            model_paths@,
                            names.push(name),
                            loads.push(some_load),
                            i + 1,
                            model_paths@.len() as int,
                            error@,
                        );
                        lemma_nothing_after(
                            model_paths@,
                            names.push(name),
                            loads.push(some_load),
                            load,
                            i + 1,
                        );
                    }
                    return Err(error);
                },
            };
            let loaded = load(model_path);
            let ghost outcome = loaded;
            proof {
                lemma_same_start(model_paths@, names, loads, name, outcome, load, i as int);
            }
            match loaded {
                Err(words) => {
                    let error = Error::Outside(words);
                    proof {
                        lemma_first_error(
                            model_paths@,
                            names.push(name),
                            loads.push(outcome),
                            i + 1,
                            model_paths@.len() as int,
                            error@,
                        );
                        lemma_nothing_after(
                            model_paths@,
                            names.push(name),
                            loads.push(outcome),
                            load,
                            i + 1,
                        );
                    }
                    return Err(error);
                },
                Ok(context) => {
                    let ghost before = models@;
                    models.push(NamedModel { key, context });
                    proof {
                        names = names.push(name);
                        loads = loads.push(outcome);
                        assert(named(models@) == named(before).push((key@, context)));
                        assert(keys_of(named(models@)) == keys_of(named(before)).push(key@));
                    }
                },
            }
        }
        assert(can_happen(model_paths@, names, loads, load));
        if models.is_empty() {
            return Err(Error::NoModels);
        }
        let ghost all = models@;
        let first = models.remove(0);
        proof {
            assert(named(all) == seq![(first.key@, first.context)] + named(models@));
        }
        Ok(
            WhisperBackend {
                first_model_key: first.key,
                first_model: first.context,
                models,
                vad_model_path: vad_model_path.to_owned(),
            },
        )
    }

    /// The default model: the first one that was loaded.
    pub fn context(&self) -> (r: &C)
        ensures
            *r == self@.models[0].1,
    {
        &self.first_model
    }

    /// The path of the voice activity detection model.
    pub fn vad_model_path(&self) -> (r: &str)
        ensures
            r@ == self@.vad_model_path,
    {
        self.vad_model_path.as_str()
    }

    /// The key that is used where a request asks for none.
    pub fn default_model_key(&self) -> (r: &str)
        ensures
            r@ == self@.default_key(),
    {
        self.first_model_key.as_str()
    }

    /// The keys of the models, in ascending order.
    pub fn model_keys(&self) -> (r: Vec<String>)
        ensures
            texts(r@) == sorted(self@.keys()),
    {
        let mut keys: Vec<String> = Vec::new();
        keys.push(self.first_model_key.clone());
        let ghost all = self@.keys();
        for i in 0..self.models.len()
            invariant
                all == self@.keys(),
                texts(keys@) == all.take(i + 1),
        {
            let ghost before = keys@;
            keys.push(self.models[i].key.clone());
            proof {
                assert(texts(keys@) == texts(before).push(all[i + 1]));
                assert(all.take(i + 2) == all.take(i + 1).push(all[i + 1]));
            }
        }
        proof {
            assert(all.take(self.models.len() + 1) == all);
        }
        sort(&mut keys);
        keys
    }

    /// The keys of the models, in ascending order, as one text.
    pub fn available_model_keys(&self) -> (r: String)
        ensures
            r@ == self@.key_list(),
    {
        let keys = self.model_keys();
        join(&keys, ", ")
    }

    /// Takes the key of a model from its path: the file name. On a path that is not portable
    /// the platform decides what the file name is.
    pub fn model_key_from_path(model_path: &str) -> (r: Result<String, Error>)
        ensures
            is_portable_path(model_path@) ==> text_result(r) == slash_model_key(model_path@),
            exists|name: FileName|
                {
                    &&& #[trigger] call_ensures(file_name, (model_path,), name)
                    &&& text_result(r) == named_model_key(model_path@, name)
                },
    {
        model_key(model_path, file_name(model_path))
    }

    /// The key of the model that `opts` selects.
    pub fn selected_model_key<'a>(&'a self, opts: &'a Opts) -> (r: Result<&'a str, Error>)
        ensures
            match r {
                Ok(key) => self@.selected_key(opts@.model_key) == Ok::<Seq<char>, ErrorView>(key@),
                Err(error) => self@.selected_key(opts@.model_key) == Err::<Seq<char>, ErrorView>(
                    error@,
                ),
            },
    {
        match &opts.model_key {
            None => Ok(self.first_model_key.as_str()),
            Some(key) => {
                let known = self.first_model_key == *key || has_key(&self.models, key);
                proof {
                    let rest = keys_of(named(self.models@));
                    assert(self@.keys() == seq![self.first_model_key@] + rest);
                    if self.first_model_key@ == key@ {
                        assert(self@.keys()[0] == key@);
                    } else if rest.contains(key@) {
                        let i = choose|i: int| 0 <= i < rest.len() && rest[i] == key@;
                        assert(self@.keys()[i + 1] == key@);
                    }
                }
                if known {
                    Ok(key.as_str())
                } else {
                    Err(Error::UnknownModelKey(key.clone(), self.available_model_keys()))
                }
            },
        }
    }

    /// The model that `opts` selects.
    pub fn selected_context<'a>(&'a self, opts: &'a Opts) -> (r: Result<&'a C, Error>)
        ensures
            match self@.selected_key(opts@.model_key) {
                Ok(key) => r matches Ok(context) && self@.is_model(key, *context),
                Err(reason) => r matches Err(error) && error@ == reason,
            },
    {
        let key = match self.selected_model_key(opts) {
            Ok(key) => key.to_owned(),
            Err(error) => {
                return Err(error);
            },
        };
        if key == self.first_model_key {
            proof {
                assert(self@.models[0] == (key@, self.first_model));
            }
            return Ok(&self.first_model);
        }
        for i in 0..self.models.len()
            invariant
                self@.selected_key(opts@.model_key) == Ok::<Seq<char>, ErrorView>(key@),
                key@ != self.first_model_key@,
                forall|j: int| 0 <= j < i ==> #[trigger] self.models@[j].key@ != key@,
        {
            if self.models[i].key == key {
                proof {
                    assert(self@.models[i + 1] == (key@, self.models@[i as int].context));
                }
                return Ok(&self.models[i].context);
            }
        }
        proof {
            // The selected key is one of the keys, so the search cannot have failed.
            assert(self@.default_key() == self.first_model_key@);
            let keys = self@.keys();
            let j = choose|j: int| 0 <= j < keys.len() && keys[j] == key@;
            assert(keys[j] == key@);
            assert(j > 0 ==> self.models@[j - 1].key@ == key@);
            assert(false);
        }
        Ok(&self.first_model)
    }

    /// The model with which `samples` are transcribed in one pass, if there are any.
    pub fn transcribe_full<'a, S>(&'a self, opts: &'a Opts, samples: &[S]) -> (r: Result<
        Option<&'a C>,
        Error,
    >)
        ensures
            samples@.len() == 0 ==> r == Ok::<Option<&'a C>, Error>(None),
            samples@.len() > 0 ==> match self@.selected_key(opts@.model_key) {
                Ok(key) => r matches Ok(Some(context)) && self@.is_model(key, *context),
                Err(reason) => r matches Err(error) && error@ == reason,
            },
    {
        if samples.is_empty() {
            return Ok(None);
        }
        match self.selected_context(opts) {
            Ok(context) => Ok(Some(context)),
            Err(error) => Err(error),
        }
    }

    /// Starts a stream: the model that it uses, and its state, which is filtered by voice
    /// activity where `opts` asks for that.
    pub fn create_stream<'a, S>(&'a self, opts: &'a Opts) -> (r: Result<
        (&'a C, WhisperStream<S>),
        Error,
    >)
        requires
            opts.incremental_min_window_seconds * TARGET_SAMPLE_RATE <= usize::MAX,
        ensures
            match self@.selected_key(opts@.model_key) {
                Ok(key) => r matches Ok((context, stream)) && {
                    &&& self@.is_model(key, *context)
                    &&& stream.inner.inv()
                    &&& stream.inner@ == empty_transcriber::<S>(*opts)
                    &&& stream.filtered == opts.enable_voice_activity_detection
                },
                Err(reason) => r matches Err(error) && error@ == reason,
            },
    {
        match self.selected_context(opts) {
            Ok(context) => Ok(
                (
                    context,
                    WhisperStream {
                        inner: BufferedSegmentTranscriber::new(opts),
                        filtered: opts.enable_voice_activity_detection,
                    },
                ),
            ),
            Err(error) => Err(error),
        }
    }
}

} // verus!
