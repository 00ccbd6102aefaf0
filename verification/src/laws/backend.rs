//! Laws of the operations of the built-in backend: which paths are accepted, which models are then
//! in use and under which keys, and which of them a request gets.
use vstd::prelude::*;

use crate::error::{Error, ErrorView};
use crate::incremental::BufferedSegmentTranscriber;
use crate::laws::buffer::same_buffer;
use crate::opts::Opts;
use crate::server::{models, ModelsResponse};
use crate::stream::WhisperStream;
use crate::text::{
    blank_iff_trimmed_empty, file_name, is_file_name_of, is_white_space, sorted, sorted_is_sorted,
    text_le, texts, FileName,
};
use crate::whisper::{
    admission_key, admitted_key, can_happen, can_happen_at, check_vad_path, keys_of, loaded_models,
    model_key, named, NamedModel, PathStatus, WhisperBackend,
};

verus! {

/// A text holds something other than white space.
pub open spec fn says_something(text: Seq<char>) -> bool {
    exists|i: int| 0 <= i < text.len() && !is_white_space(#[trigger] text[i])
}

proof fn trimming_leaves_what_is_said(text: Seq<char>)
    ensures
        says_something(text) <==> crate::text::trimmed(text).len() > 0,
{
    blank_iff_trimmed_empty(text);
}

/// The path of the voice activity detection model is accepted exactly if it holds something other
/// than white space and a file stands there, whatever else the path is. Otherwise the error says
/// which of these fails: that it is missing only of a path without anything in it, that it was not
/// found only where nothing stands, and that it is no file only where something else does.
pub proof fn vad_path_is_accepted_where_a_file_stands(
    path: &str,
    status: PathStatus,
    r: Result<(), Error>,
)
    requires
        call_ensures(check_vad_path, (path, status), r),
    ensures
        r is Ok <==> says_something(path@) && status == PathStatus::File,
        r matches Err(error) ==> {
            &&& error@ == ErrorView::VadModelPathMissing <==> !says_something(path@)
            &&& error@ == ErrorView::VadModelNotFound(path@) <==> says_something(path@) && status
                == PathStatus::Absent
            &&& error@ == ErrorView::VadModelNotAFile(path@) <==> says_something(path@) && status
                == PathStatus::NotAFile
        },
        call_requires(check_vad_path, (path, status)),
{
    trimming_leaves_what_is_said(path@);
}

/// The key of a model is its file name as it stands, wherever the file lies, exactly if that name
/// holds something other than white space. Otherwise the error names the path.
pub proof fn key_is_the_name_of_the_file(path: &str, name: FileName, r: Result<String, Error>)
    requires
        call_ensures(model_key, (path, name), r),
    ensures
        match name {
            FileName::Name(text) => if says_something(text@) {
                r matches Ok(key) && key@ == text@
            } else {
                r matches Err(error) && error@ == ErrorView::ModelFileNameEmpty(path@)
            },
            FileName::Missing => r matches Err(error) && error@
                == ErrorView::ModelPathWithoutFileName(path@),
            FileName::NotUnicode => r matches Err(error) && error@
                == ErrorView::ModelFileNameNotUnicode(path@),
        },
        call_requires(model_key, (path, name)),
{
    if let FileName::Name(text) = name {
        trimming_leaves_what_is_said(text@);
    }
}

/// The key that is read off a path is the one of the file name that the platform finds in it.
pub proof fn key_of_a_path_is_the_key_of_its_file_name<C>(path: &str, r: Result<String, Error>)
    requires
        call_ensures(WhisperBackend::<C>::model_key_from_path, (path,), r),
    ensures
        exists|name: FileName|
            {
                &&& #[trigger] call_ensures(file_name, (path,), name)
                &&& match name {
                    FileName::Name(text) => if says_something(text@) {
                        r matches Ok(key) && key@ == text@
                    } else {
                        r matches Err(error) && error@ == ErrorView::ModelFileNameEmpty(path@)
                    },
                    FileName::Missing => r matches Err(error) && error@
                        == ErrorView::ModelPathWithoutFileName(path@),
                    FileName::NotUnicode => r matches Err(error) && error@
                        == ErrorView::ModelFileNameNotUnicode(path@),
                }
            },
        call_requires(WhisperBackend::<C>::model_key_from_path, (path,)),
{
    let name = choose|name: FileName|
        {
            &&& #[trigger] call_ensures(file_name, (path,), name)
            &&& crate::whisper::text_result(r) == crate::whisper::named_model_key(path@, name)
        };
    if let FileName::Name(text) = name {
        trimming_leaves_what_is_said(text@);
    }
}

/// A model is added under the key of its path exactly if the path holds something other than white
/// space, has a key, and no model has that key yet. A blank path is missing, a key that is taken is
/// named together with the path, and a path without a key is refused as its key is.
pub proof fn model_is_added_under_a_key_of_its_own<C>(
    models: Vec<NamedModel<C>>,
    path: &str,
    name: FileName,
    key: Result<String, Error>,
    r: Result<String, Error>,
)
    requires
        call_ensures(admission_key::<C>, (&models, path, name), r),
        call_ensures(model_key, (path, name), key),
    ensures
        !says_something(path@) ==> (r matches Err(error) && error@ == ErrorView::ModelPathMissing),
        says_something(path@) ==> match key {
            Err(reason) => r matches Err(error) && error@ == reason@,
            Ok(key) => if exists|i: int|
                0 <= i < models@.len() && #[trigger] models@[i].key@ == key@ {
                r matches Err(error) && error@ == ErrorView::DuplicateModelKey(key@, path@)
            } else {
                r matches Ok(added) && added@ == key@
            },
        },
        call_requires(admission_key::<C>, (&models, path, name)),
{
    trimming_leaves_what_is_said(path@);
    if let Ok(key) = key {
        let keys = keys_of(named(models@));
        assert(keys.contains(key@) <==> exists|i: int|
            0 <= i < models@.len() && #[trigger] models@[i].key@ == key@) by {
            if keys.contains(key@) {
                let i = choose|i: int| 0 <= i < keys.len() && keys[i] == key@;
                assert(models@[i].key@ == key@);
            }
            if exists|i: int| 0 <= i < models@.len() && #[trigger] models@[i].key@ == key@ {
                let i = choose|i: int|
                    0 <= i < models@.len() && #[trigger] models@[i].key@ == key@;
                assert(keys[i] == key@);
            }
        }
    }
}

/// The first fault decides: where the models before it were loaded, a path without anything in it
/// is missing, a path without a key is refused as such, a key that is taken is named together with
/// the path, and otherwise the words are handed on with which loading failed.
pub proof fn first_fault_decides<C>(
    paths: Seq<String>,
    names: Seq<FileName>,
    loads: Seq<Result<C, String>>,
    k: int,
    n: int,
)
    requires
        0 <= k < n,
        loaded_models(paths, names, loads, k) is Ok,
    ensures
        ({
            let path = paths[k]@;
            let before = loaded_models(paths, names, loads, k)->Ok_0;
            let r = loaded_models(paths, names, loads, n);
            let refused = |error: ErrorView| r == Err::<Seq<(Seq<char>, C)>, ErrorView>(error);
            if !says_something(path) {
                refused(ErrorView::ModelPathMissing)
            } else {
                match names[k] {
                    FileName::Missing => refused(ErrorView::ModelPathWithoutFileName(path)),
                    FileName::NotUnicode => refused(ErrorView::ModelFileNameNotUnicode(path)),
                    FileName::Name(name) => if !says_something(name@) {
                        refused(ErrorView::ModelFileNameEmpty(path))
                    } else if exists|i: int|
                        0 <= i < before.len() && (#[trigger] before[i]).0 == name@ {
                        refused(ErrorView::DuplicateModelKey(name@, path))
                    } else {
                        match loads[k] {
                            Err(words) => refused(ErrorView::Outside(words@)),
                            Ok(model) => loaded_models(paths, names, loads, k + 1) == Ok::<
                                Seq<(Seq<char>, C)>,
                                ErrorView,
                            >(before.push((name@, model))),
                        }
                    },
                }
            }
        }),
    decreases n,
{
    let before = loaded_models(paths, names, loads, k)->Ok_0;
    trimming_leaves_what_is_said(paths[k]@);
    if let FileName::Name(name) = names[k] {
        trimming_leaves_what_is_said(name@);
        let keys = keys_of(before);
        assert(keys.contains(name@) <==> exists|i: int|
            0 <= i < before.len() && (#[trigger] before[i]).0 == name@) by {
            if keys.contains(name@) {
                let i = choose|i: int| 0 <= i < keys.len() && keys[i] == name@;
                assert(before[i].0 == name@);
            }
            if exists|i: int| 0 <= i < before.len() && (#[trigger] before[i]).0 == name@ {
                let i = choose|i: int| 0 <= i < before.len() && (#[trigger] before[i]).0 == name@;
                assert(keys[i] == name@);
            }
        }
    }
    if n > k + 1 {
        first_fault_decides(paths, names, loads, k, n - 1);
    }
}

/// A backend that was loaded has as many models as there are paths, one or more, in their order:
/// each under a file name of its path, each as `load` returned it, no two under the same key. The
/// path of the voice activity detection model is the one that was given, and it was accepted.
pub proof fn backend_has_a_model_for_every_path<C, F: Fn(&String) -> Result<C, String>>(
    paths: Vec<String>,
    vad_path: &str,
    status: PathStatus,
    load: F,
    backend: WhisperBackend<C>,
)
    requires
        call_ensures(
            WhisperBackend::<C>::new::<F>,
            (&paths, vad_path, status, load),
            Ok(backend),
        ),
    ensures
        says_something(vad_path@),
        status == PathStatus::File,
        backend@.vad_model_path == vad_path@,
        backend@.models.len() == paths@.len(),
        paths@.len() > 0,
        forall|i: int|
            0 <= i < paths@.len() ==> {
                let key = (#[trigger] backend@.models[i]).0;
                &&& says_something(key)
                &&& says_something(paths@[i]@)
                &&& exists|name: String|
                    name@ == key && #[trigger] is_file_name_of(paths@[i]@, FileName::Name(name))
                &&& call_ensures(load, (&paths@[i],), Ok(backend@.models[i].1))
            },
        forall|i: int, j: int|
            0 <= i < j < paths@.len() ==> (#[trigger] backend@.models[i]).0 != (
            #[trigger] backend@.models[j]).0,
{
    trimming_leaves_what_is_said(vad_path@);
    let (names, loads) = choose|names: Seq<FileName>, loads: Seq<Result<C, String>>|
        {
            &&& #[trigger] can_happen(paths@, names, loads, load)
            &&& crate::whisper::is_outcome(
                Ok::<WhisperBackend<C>, Error>(backend),
                paths@,
                names,
                loads,
                vad_path@,
            )
        };
    let n = paths@.len() as int;
    crate::laws::models::every_path_has_a_model_of_its_own(paths@, names, loads, n);
    assert forall|i: int| 0 <= i < n implies {
        let key = (#[trigger] backend@.models[i]).0;
        &&& says_something(key)
        &&& says_something(paths@[i]@)
        &&& exists|name: String|
            name@ == key && #[trigger] is_file_name_of(paths@[i]@, FileName::Name(name))
        &&& call_ensures(load, (&paths@[i],), Ok(backend@.models[i].1))
    } by {
        assert(can_happen_at(paths@, names, loads, load, i));
        models_before_are_loaded(paths@, names, loads, i, n);
        models_before_are_loaded(paths@, names, loads, i + 1, n);
        trimming_leaves_what_is_said(paths@[i]@);
        if let FileName::Name(name) = names[i] {
            trimming_leaves_what_is_said(name@);
            assert(is_file_name_of(paths@[i]@, FileName::Name(name)));
        }
    }
    assert forall|i: int, j: int| 0 <= i < j < n implies (#[trigger] backend@.models[i]).0 != (
    #[trigger] backend@.models[j]).0 by {
        let keys = keys_of(backend@.models);
        assert(keys[i] != keys[j]);
    }
}

proof fn models_before_are_loaded<C>(
    paths: Seq<String>,
    names: Seq<FileName>,
    loads: Seq<Result<C, String>>,
    k: int,
    n: int,
)
    requires
        0 <= k <= n,
        loaded_models(paths, names, loads, n) is Ok,
    ensures
        loaded_models(paths, names, loads, k) is Ok,
    decreases n - k,
{
    if k < n {
        models_before_are_loaded(paths, names, loads, k, n - 1);
    }
}

/// Nothing but a fault keeps a backend from being loaded: where the path of the voice activity
/// detection model is accepted, there is a path of a model, every path holds something other than
/// white space and has a file name that does, no two have the same, and `load` does not fail, there
/// is a backend.
pub proof fn faultless_backend_is_loaded<C, F: Fn(&String) -> Result<C, String>>(
    paths: Vec<String>,
    vad_path: &str,
    load: F,
    r: Result<WhisperBackend<C>, Error>,
)
    requires
        call_ensures(
            WhisperBackend::<C>::new::<F>,
            (&paths, vad_path, PathStatus::File, load),
            r,
        ),
        says_something(vad_path@),
        paths@.len() > 0,
        forall|i: int| 0 <= i < paths@.len() ==> says_something((#[trigger] paths@[i])@),
        forall|i: int, name: FileName|
            0 <= i < paths@.len() && #[trigger] is_file_name_of(paths@[i]@, name) ==> (
            name matches FileName::Name(text) && says_something(text@)),
        forall|i: int, j: int, a: String, b: String|
            0 <= i < j < paths@.len() && #[trigger] is_file_name_of(
                paths@[i]@,
                FileName::Name(a),
            ) && #[trigger] is_file_name_of(paths@[j]@, FileName::Name(b)) ==> a@ != b@,
        forall|i: int, loaded: Result<C, String>|
            0 <= i < paths@.len() && #[trigger] call_ensures(load, (&paths@[i],), loaded)
                ==> loaded is Ok,
    ensures
        r is Ok,
{
    trimming_leaves_what_is_said(vad_path@);
    let (names, loads) = choose|names: Seq<FileName>, loads: Seq<Result<C, String>>|
        {
            &&& #[trigger] can_happen(paths@, names, loads, load)
            &&& crate::whisper::is_outcome(r, paths@, names, loads, vad_path@)
        };
    faultless_paths_are_loaded(paths@, names, loads, load, paths@.len() as int);
    crate::laws::models::every_path_has_a_model_of_its_own(
        paths@,
        names,
        loads,
        paths@.len() as int,
    );
}

proof fn faultless_paths_are_loaded<C, F: Fn(&String) -> Result<C, String>>(
    paths: Seq<String>,
    names: Seq<FileName>,
    loads: Seq<Result<C, String>>,
    load: F,
    n: int,
)
    requires
        0 <= n <= paths.len(),
        can_happen(paths, names, loads, load),
        forall|i: int| 0 <= i < paths.len() ==> says_something((#[trigger] paths[i])@),
        forall|i: int, name: FileName|
            0 <= i < paths.len() && #[trigger] is_file_name_of(paths[i]@, name) ==> (
            name matches FileName::Name(text) && says_something(text@)),
        forall|i: int, j: int, a: String, b: String|
            0 <= i < j < paths.len() && #[trigger] is_file_name_of(paths[i]@, FileName::Name(a))
                && #[trigger] is_file_name_of(paths[j]@, FileName::Name(b)) ==> a@ != b@,
        forall|i: int, loaded: Result<C, String>|
            0 <= i < paths.len() && #[trigger] call_ensures(load, (&paths[i],), loaded)
                ==> loaded is Ok,
    ensures
        loaded_models(paths, names, loads, n) is Ok,
    decreases n,
{
    if n > 0 {
        let k = n - 1;
        faultless_paths_are_loaded(paths, names, loads, load, k);
        let before = loaded_models(paths, names, loads, k)->Ok_0;
        assert(can_happen_at(paths, names, loads, load, k));
        assert(is_file_name_of(paths[k]@, names[k]));
        let name = names[k]->Name_0;
        trimming_leaves_what_is_said(paths[k]@);
        trimming_leaves_what_is_said(name@);
        crate::laws::models::every_path_has_a_model_of_its_own(paths, names, loads, k);
        if keys_of(before).contains(name@) {
            let i = choose|i: int| 0 <= i < keys_of(before).len() && keys_of(before)[i] == name@;
            assert(before[i].0 == name@);
            models_before_are_loaded(paths, names, loads, i, k);
            assert(can_happen_at(paths, names, loads, load, i));
            assert(is_file_name_of(paths[i]@, names[i]));
            assert(is_file_name_of(paths[k]@, FileName::Name(name)));
            assert(names[i] == FileName::Name(names[i]->Name_0));
        }
        assert(admitted_key(keys_of(before), paths[k]@, names[k]) is Ok);
        assert(call_ensures(load, (&paths[k],), loads[k]));
    }
}

/// Where the path of the voice activity detection model is not accepted there is no backend, and
/// the error is the one of that path, whatever the models are. Without a path of a model there is
/// none either.
pub proof fn refused_vad_path_comes_first<C, F: Fn(&String) -> Result<C, String>>(
    paths: Vec<String>,
    vad_path: &str,
    status: PathStatus,
    load: F,
    checked: Result<(), Error>,
    r: Result<WhisperBackend<C>, Error>,
)
    requires
        call_ensures(WhisperBackend::<C>::new::<F>, (&paths, vad_path, status, load), r),
        call_ensures(check_vad_path, (vad_path, status), checked),
    ensures
        checked matches Err(reason) ==> (r matches Err(error) && error@ == reason@),
        checked is Ok && paths@.len() == 0 ==> (r matches Err(error) && error@
            == ErrorView::NoModels),
        (forall|path: &String| call_requires(load, (path,))) ==> call_requires(
            WhisperBackend::<C>::new::<F>,
            (&paths, vad_path, status, load),
        ),
{
}

/// The default model and its key are those of the first path, and the path of the voice activity
/// detection model is handed out as it was given.
pub proof fn default_model_is_the_first<C>(
    backend: WhisperBackend<C>,
    context: &C,
    key: &str,
    vad_path: &str,
)
    requires
        call_ensures(WhisperBackend::<C>::context, (&backend,), context),
        call_ensures(WhisperBackend::<C>::default_model_key, (&backend,), key),
        call_ensures(WhisperBackend::<C>::vad_model_path, (&backend,), vad_path),
    ensures
        *context == backend@.models[0].1,
        key@ == backend@.models[0].0,
        vad_path@ == backend@.vad_model_path,
{
}

/// Some model of the backend has the key.
pub open spec fn is_key_of_a_model<C>(backend: WhisperBackend<C>, key: Seq<char>) -> bool {
    exists|j: int| 0 <= j < backend@.models.len() && (#[trigger] backend@.models[j]).0 == key
}

/// Some of the texts reads so.
pub open spec fn is_among(listed: Seq<String>, text: Seq<char>) -> bool {
    exists|i: int| 0 <= i < listed.len() && (#[trigger] listed[i])@ == text
}

/// The keys are listed in ascending order, as many as there are models: every key of a model is
/// there, and no other.
pub proof fn keys_are_listed_in_order<C>(backend: WhisperBackend<C>, keys: Vec<String>)
    requires
        call_ensures(WhisperBackend::<C>::model_keys, (&backend,), keys),
    ensures
        keys@.len() == backend@.models.len(),
        forall|i: int, j: int|
            0 <= i < j < keys@.len() ==> text_le((#[trigger] keys@[i])@, (#[trigger] keys@[j])@),
        forall|i: int|
            0 <= i < keys@.len() ==> is_key_of_a_model(backend, (#[trigger] keys@[i])@),
        forall|j: int|
            0 <= j < backend@.models.len() ==> is_among(keys@, (#[trigger] backend@.models[j]).0),
{
    let all = backend@.keys();
    let listed = texts(keys@);
    sorted_is_sorted(all);
    assert forall|i: int, j: int| 0 <= i < j < keys@.len() implies text_le(
        (#[trigger] keys@[i])@,
        (#[trigger] keys@[j])@,
    ) by {
        assert(text_le(listed[i], listed[j]));
    }
    assert forall|i: int| 0 <= i < keys@.len() implies is_key_of_a_model(
        backend,
        (#[trigger] keys@[i])@,
    ) by {
        assert(listed[i] == keys@[i]@);
        assert(sorted(all).contains(listed[i]));
        let j = choose|j: int| 0 <= j < all.len() && all[j] == listed[i];
        assert(backend@.models[j].0 == keys@[i]@);
    }
    assert forall|j: int| 0 <= j < backend@.models.len() implies is_among(
        keys@,
        (#[trigger] backend@.models[j]).0,
    ) by {
        assert(all[j] == backend@.models[j].0);
        assert(sorted(all).contains(all[j]));
        let i = choose|i: int| 0 <= i < listed.len() && listed[i] == all[j];
        assert(keys@[i]@ == backend@.models[j].0);
    }
}

/// The list of the keys in words is the list of the keys, with a comma and a space between any two.
pub proof fn keys_are_listed_in_words<C>(
    backend: WhisperBackend<C>,
    keys: Vec<String>,
    words: String,
)
    requires
        call_ensures(WhisperBackend::<C>::model_keys, (&backend,), keys),
        call_ensures(WhisperBackend::<C>::available_model_keys, (&backend,), words),
    ensures
        words@ == crate::text::joined(texts(keys@), ", "@),
        texts(keys@).len() == keys@.len(),
        forall|i: int| 0 <= i < keys@.len() ==> #[trigger] texts(keys@)[i] == keys@[i]@,
{
}

/// A request that asks for no key gets the default one. One that asks for a key gets it exactly if
/// a model has it; otherwise the error names the key and lists those that there are.
pub proof fn asked_key_is_selected<C>(
    backend: WhisperBackend<C>,
    opts: Opts,
    words: String,
    r: Result<&str, Error>,
)
    requires
        backend@.models.len() > 0,
        call_ensures(WhisperBackend::<C>::selected_model_key, (&backend, &opts), r),
        call_ensures(WhisperBackend::<C>::available_model_keys, (&backend,), words),
    ensures
        match opts.model_key {
            None => r matches Ok(key) && key@ == backend@.models[0].0,
            Some(asked) => if is_key_of_a_model(backend, asked@) {
                r matches Ok(key) && key@ == asked@
            } else {
                r matches Err(error) && error@ == ErrorView::UnknownModelKey(asked@, words@)
            },
        },
        call_requires(WhisperBackend::<C>::selected_model_key, (&backend, &opts)),
{
    if let Some(asked) = opts.model_key {
        keys_are_those_of_models(backend, asked@);
    }
}

proof fn keys_are_those_of_models<C>(backend: WhisperBackend<C>, key: Seq<char>)
    ensures
        backend@.keys().contains(key) <==> is_key_of_a_model(backend, key),
{
    let keys = backend@.keys();
    if keys.contains(key) {
        let j = choose|j: int| 0 <= j < keys.len() && keys[j] == key;
        assert(backend@.models[j].0 == key);
    }
    if is_key_of_a_model(backend, key) {
        let j = choose|j: int|
            0 <= j < backend@.models.len() && (#[trigger] backend@.models[j]).0 == key;
        assert(keys[j] == key);
    }
}

/// A request gets the model whose key it selects, and is refused where no key is selected, for the
/// same reason.
pub proof fn selected_key_gets_its_model<C>(
    backend: WhisperBackend<C>,
    opts: Opts,
    key: Result<&str, Error>,
    r: Result<&C, Error>,
)
    requires
        backend@.models.len() > 0,
        call_ensures(WhisperBackend::<C>::selected_model_key, (&backend, &opts), key),
        call_ensures(WhisperBackend::<C>::selected_context, (&backend, &opts), r),
    ensures
        match key {
            Ok(key) => r matches Ok(context) && exists|j: int|
                {
                    &&& 0 <= j < backend@.models.len()
                    &&& (#[trigger] backend@.models[j]).0 == key@
                    &&& *context == backend@.models[j].1
                },
            Err(reason) => r matches Err(error) && error@ == reason@,
        },
        call_requires(WhisperBackend::<C>::selected_context, (&backend, &opts)),
{
    if let (Ok(key), Ok(context)) = (key, r) {
        let j = choose|j: int|
            0 <= j < backend@.models.len() && backend@.models[j] == (key@, *context);
        assert(backend@.models[j].0 == key@);
    }
}

/// Samples are transcribed in one pass with the model that the request gets. Without any sample
/// there is nothing to do, whatever the request asks for.
pub proof fn samples_are_transcribed_with_the_selected_model<C, S>(
    backend: WhisperBackend<C>,
    opts: Opts,
    samples: &[S],
    key: Result<&str, Error>,
    r: Result<Option<&C>, Error>,
)
    requires
        backend@.models.len() > 0,
        call_ensures(WhisperBackend::<C>::selected_model_key, (&backend, &opts), key),
        call_ensures(
            WhisperBackend::<C>::transcribe_full::<S>,
            (&backend, &opts, samples),
            r,
        ),
    ensures
        samples@.len() == 0 ==> r == Ok::<Option<&C>, Error>(None),
        samples@.len() > 0 ==> match key {
            Ok(key) => r matches Ok(Some(context)) && exists|j: int|
                {
                    &&& 0 <= j < backend@.models.len()
                    &&& (#[trigger] backend@.models[j]).0 == key@
                    &&& *context == backend@.models[j].1
                },
            Err(reason) => r matches Err(error) && error@ == reason@,
        },
{
    if samples@.len() > 0 {
        if let (Ok(key), Ok(Some(context))) = (key, r) {
            let j = choose|j: int|
                0 <= j < backend@.models.len() && backend@.models[j] == (key@, *context);
            assert(backend@.models[j].0 == key@);
        }
    }
}

/// A stream is started with the model that the request gets, with an empty buffer of the windows it
/// asks for, and with a voice activity filter exactly where it asks for one.
pub proof fn stream_is_started_as_asked<C, S>(
    backend: WhisperBackend<C>,
    opts: Opts,
    key: Result<&str, Error>,
    empty: BufferedSegmentTranscriber<S>,
    r: Result<(&C, WhisperStream<S>), Error>,
)
    requires
        backend@.models.len() > 0,
        call_ensures(WhisperBackend::<C>::selected_model_key, (&backend, &opts), key),
        call_ensures(BufferedSegmentTranscriber::<S>::new, (&opts,), empty),
        call_ensures(WhisperBackend::<C>::create_stream::<S>, (&backend, &opts), r),
    ensures
        match key {
            Ok(key) => r matches Ok((context, stream)) && {
                &&& stream.inner.inv()
                &&& same_buffer(stream.inner@, empty@)
                &&& stream.filtered <==> opts.enable_voice_activity_detection
                &&& exists|j: int|
                    {
                        &&& 0 <= j < backend@.models.len()
                        &&& (#[trigger] backend@.models[j]).0 == key@
                        &&& *context == backend@.models[j].1
                    }
            },
            Err(reason) => r matches Err(error) && error@ == reason@,
        },
        opts.incremental_min_window_seconds * 16_000 <= usize::MAX ==> call_requires(
            WhisperBackend::<C>::create_stream::<S>,
            (&backend, &opts),
        ),
{
    if let (Ok(key), Ok((context, stream))) = (key, r) {
        let j = choose|j: int|
            0 <= j < backend@.models.len() && backend@.models[j] == (key@, *context);
        assert(backend@.models[j].0 == key@);
    }
}

/// The answer to a request for the models is what the backend says of itself.
pub proof fn models_are_answered_as_listed<C>(
    backend: WhisperBackend<C>,
    key: &str,
    keys: Vec<String>,
    vad_path: &str,
    r: ModelsResponse,
)
    requires
        call_ensures(models::<C>, (&backend,), r),
        call_ensures(WhisperBackend::<C>::default_model_key, (&backend,), key),
        call_ensures(WhisperBackend::<C>::model_keys, (&backend,), keys),
        call_ensures(WhisperBackend::<C>::vad_model_path, (&backend,), vad_path),
    ensures
        r.default_model_key@ == key@,
        r.model_keys@.len() == keys@.len(),
        forall|i: int| 0 <= i < keys@.len() ==> (#[trigger] r.model_keys@[i])@ == keys@[i]@,
        r.vad_model_path@ == vad_path@,
{
    assert(texts(r.model_keys@) == texts(keys@));
    assert forall|i: int| 0 <= i < keys@.len() implies (#[trigger] r.model_keys@[i])@
        == keys@[i]@ by {
        assert(texts(r.model_keys@)[i] == texts(keys@)[i]);
    }
}

/// `error` says what is wrong with the path at `k`, whose file name is `name`: it holds nothing, it
/// has no name, or none in Unicode, or a blank one, or one that the path at `j` before it has too,
/// or `load` failed on it, in these words.
pub open spec fn is_fault<C, F: Fn(&String) -> Result<C, String>>(
    paths: Seq<String>,
    load: F,
    k: int,
    name: FileName,
    error: ErrorView,
) -> bool {
    let path = paths[k]@;
    if !says_something(path) {
        error == ErrorView::ModelPathMissing
    } else {
        match name {
            FileName::Missing => error == ErrorView::ModelPathWithoutFileName(path),
            FileName::NotUnicode => error == ErrorView::ModelFileNameNotUnicode(path),
            FileName::Name(text) => if !says_something(text@) {
                error == ErrorView::ModelFileNameEmpty(path)
            } else {
                ||| error == ErrorView::DuplicateModelKey(text@, path) && exists|
                    j: int,
                    other: String,
                |
                    0 <= j < k && other@ == text@ && #[trigger] is_file_name_of(
                        paths[j]@,
                        FileName::Name(other),
                    )
                ||| exists|words: String|
                    error == ErrorView::Outside(words@) && #[trigger] call_ensures(
                        load,
                        (&paths[k],),
                        Err(words),
                    )
            },
        }
    }
}

/// Where there is no backend although the path of the voice activity detection model is accepted
/// and there are paths of models, the error says what is wrong with one of these.
pub proof fn refused_backend_has_a_fault<C, F: Fn(&String) -> Result<C, String>>(
    paths: Vec<String>,
    vad_path: &str,
    load: F,
    error: Error,
)
    requires
        call_ensures(
            WhisperBackend::<C>::new::<F>,
            (&paths, vad_path, PathStatus::File, load),
            Err(error),
        ),
        says_something(vad_path@),
        paths@.len() > 0,
    ensures
        exists|k: int, name: FileName|
            {
                &&& 0 <= k < paths@.len()
                &&& #[trigger] is_file_name_of(paths@[k]@, name)
                &&& is_fault(paths@, load, k, name, error@)
            },
{
    trimming_leaves_what_is_said(vad_path@);
    let r: Result<WhisperBackend<C>, Error> = Err(error);
    let (names, loads) = choose|names: Seq<FileName>, loads: Seq<Result<C, String>>|
        {
            &&& #[trigger] can_happen(paths@, names, loads, load)
            &&& crate::whisper::is_outcome(r, paths@, names, loads, vad_path@)
        };
    let n = paths@.len() as int;
    if loaded_models(paths@, names, loads, n) is Ok {
        crate::laws::models::every_path_has_a_model_of_its_own(paths@, names, loads, n);
    }
    let k = first_refused(paths@, names, loads, n);
    let before = loaded_models(paths@, names, loads, k)->Ok_0;
    first_fault_decides(paths@, names, loads, k, n);
    first_fault_decides(paths@, names, loads, k, k + 1);
    assert(can_happen_at(paths@, names, loads, load, k));
    assert(is_file_name_of(paths@[k]@, names[k]));
    trimming_leaves_what_is_said(paths@[k]@);
    if let FileName::Name(text) = names[k] {
        trimming_leaves_what_is_said(text@);
        if says_something(paths@[k]@) && says_something(text@) {
            if exists|i: int| 0 <= i < before.len() && (#[trigger] before[i]).0 == text@ {
                let j = choose|i: int| 0 <= i < before.len() && (#[trigger] before[i]).0 == text@;
                crate::laws::models::every_path_has_a_model_of_its_own(paths@, names, loads, k);
                models_before_are_loaded(paths@, names, loads, j, k);
                models_before_are_loaded(paths@, names, loads, j + 1, k);
                assert(can_happen_at(paths@, names, loads, load, j));
                assert(names[j] == FileName::Name(names[j]->Name_0));
                assert(is_file_name_of(paths@[j]@, FileName::Name(names[j]->Name_0)));
            } else {
                let keys = keys_of(before);
                if keys.contains(text@) {
                    let i = choose|i: int| 0 <= i < keys.len() && keys[i] == text@;
                    assert(before[i].0 == text@);
                }
                assert(admitted_key(keys, paths@[k]@, names[k]) is Ok);
                assert(call_ensures(load, (&paths@[k],), loads[k]));
                let words = loads[k]->Err_0;
                assert(loads[k] == Err::<C, String>(words));
            }
        }
    }
    assert(is_fault(paths@, load, k, names[k], error@));
}

proof fn first_refused<C>(
    paths: Seq<String>,
    names: Seq<FileName>,
    loads: Seq<Result<C, String>>,
    n: int,
) -> (k: int)
    requires
        n >= 0,
        loaded_models(paths, names, loads, n) is Err,
    ensures
        0 <= k < n,
        loaded_models(paths, names, loads, k) is Ok,
        loaded_models(paths, names, loads, k + 1) is Err,
    decreases n,
{
    if loaded_models(paths, names, loads, n - 1) is Err {
        first_refused(paths, names, loads, n - 1)
    } else {
        n - 1
    }
}

} // verus!
