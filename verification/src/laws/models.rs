//! Laws of the models: how their keys come about, how they are listed, and how they are
//! selected.
use vstd::prelude::*;

use crate::error::ErrorView;
use crate::text::{
    after_last_slash, blank_iff_trimmed_empty, final_component, is_blank, is_portable_path,
    is_slash_file_name, sorted, sorted_is_sorted, trimmed, FileName,
};
use crate::whisper::{keys_of, loaded_models, named_model_key, slash_model_key, Models};

verus! {

/// All models are loaded or none is in use: as many as there are paths, in their order, each
/// under the key of its own path, and no two under the same key.
pub proof fn every_path_has_a_model_of_its_own<C>(
    paths: Seq<String>,
    names: Seq<FileName>,
    loads: Seq<Result<C, String>>,
    n: int,
)
    requires
        0 <= n,
        loaded_models(paths, names, loads, n) is Ok,
    ensures
        ({
            let models = loaded_models(paths, names, loads, n)->Ok_0;
            &&& models.len() == n
            &&& keys_of(models).no_duplicates()
            &&& forall|i: int|
                0 <= i < n ==> {
                    &&& named_model_key(paths[i]@, names[i]) == Ok::<Seq<char>, ErrorView>(
                        (#[trigger] models[i]).0,
                    )
                    &&& loads[i] == Ok::<C, String>(models[i].1)
                }
        }),
    decreases n,
{
    if n > 0 {
        every_path_has_a_model_of_its_own(paths, names, loads, n - 1);
        let before = loaded_models(paths, names, loads, n - 1)->Ok_0;
        let models = loaded_models(paths, names, loads, n)->Ok_0;
        let key = models.last().0;
        assert(models == before.push(models.last()));
        assert(keys_of(models) == keys_of(before).push(key));
        assert(!keys_of(before).contains(key));
    }
}

/// Models are in use whenever nothing speaks against it: no path is blank, each has a key, no
/// two have the same, and all of them load.
pub proof fn faultless_models_are_loaded<C>(
    paths: Seq<String>,
    names: Seq<FileName>,
    loads: Seq<Result<C, String>>,
    n: int,
)
    requires
        0 <= n,
        forall|i: int|
            #![trigger names[i]]
            0 <= i < n ==> {
                &&& trimmed(paths[i]@).len() > 0
                &&& named_model_key(paths[i]@, names[i]) is Ok
                &&& loads[i] is Ok
            },
        forall|i: int, j: int|
            #![trigger names[i], names[j]]
            0 <= i < j < n ==> named_model_key(paths[i]@, names[i]) != named_model_key(
                paths[j]@,
                names[j],
            ),
    ensures
        loaded_models(paths, names, loads, n) is Ok,
    decreases n,
{
    if n > 0 {
        faultless_models_are_loaded(paths, names, loads, n - 1);
        every_path_has_a_model_of_its_own(paths, names, loads, n - 1);
        let before = loaded_models(paths, names, loads, n - 1)->Ok_0;
        let key = named_model_key(paths[n - 1]@, names[n - 1])->Ok_0;
        if keys_of(before).contains(key) {
            let i = choose|i: int| 0 <= i < keys_of(before).len() && keys_of(before)[i] == key;
            assert(before[i].0 == key);
            assert(named_model_key(paths[i]@, names[i]) == named_model_key(
                paths[n - 1]@,
                names[n - 1],
            ));
        }
    }
}

/// Two paths with the same key are refused.
pub proof fn duplicate_keys_are_refused<C>(
    paths: Seq<String>,
    names: Seq<FileName>,
    loads: Seq<Result<C, String>>,
    i: int,
    j: int,
    n: int,
)
    requires
        0 <= i < j < n,
        named_model_key(paths[i]@, names[i]) is Ok,
        named_model_key(paths[i]@, names[i]) == named_model_key(paths[j]@, names[j]),
    ensures
        loaded_models(paths, names, loads, n) is Err,
{
    if loaded_models(paths, names, loads, n) is Ok {
        every_path_has_a_model_of_its_own(paths, names, loads, n);
        let models = loaded_models(paths, names, loads, n)->Ok_0;
        assert(models[i].0 == models[j].0);
        assert(keys_of(models)[i] == keys_of(models)[j]);
    }
}

proof fn nothing_but_the_name_follows_the_slash(directory: Seq<char>, name: Seq<char>)
    requires
        !name.contains('/'),
    ensures
        after_last_slash(directory.push('/') + name) == name,
    decreases name.len(),
{
    let path = directory.push('/') + name;
    if name.len() == 0 {
        assert(path == directory.push('/'));
        assert(name == Seq::<char>::empty());
    } else {
        assert(path.last() == name.last());
        assert(name.contains(name.last()));
        assert(path.drop_last() == directory.push('/') + name.drop_last());
        assert(!name.drop_last().contains('/')) by {
            if name.drop_last().contains('/') {
                let k = choose|k: int|
                    0 <= k < name.drop_last().len() && name.drop_last()[k] == '/';
                assert(name[k] == '/');
            }
        }
        nothing_but_the_name_follows_the_slash(directory, name.drop_last());
        assert(name.drop_last().push(name.last()) == name);
    }
}

proof fn name_alone_is_its_own_last_part(name: Seq<char>)
    requires
        !name.contains('/'),
    ensures
        after_last_slash(name) == name,
    decreases name.len(),
{
    if name.len() == 0 {
        assert(name == Seq::<char>::empty());
    } else {
        assert(name.contains(name.last()));
        assert(!name.drop_last().contains('/')) by {
            if name.drop_last().contains('/') {
                let k = choose|k: int|
                    0 <= k < name.drop_last().len() && name.drop_last()[k] == '/';
                assert(name[k] == '/');
            }
        }
        name_alone_is_its_own_last_part(name.drop_last());
        assert(name.drop_last().push(name.last()) == name);
    }
}

/// Keys are taken from the file name, not from the full path: in whatever directory a file
/// lies, its model has its name as key.
pub proof fn key_is_the_file_name(directory: Seq<char>, name: Seq<char>)
    requires
        !name.contains('/'),
        trimmed(name).len() > 0,
        name != seq!['.'],
        name != seq!['.', '.'],
    ensures
        slash_model_key(directory.push('/') + name) == Ok::<Seq<char>, ErrorView>(name),
        slash_model_key(name) == Ok::<Seq<char>, ErrorView>(name),
{
    name_alone_is_its_own_last_part(name);
    let path = directory.push('/') + name;
    assert(name.len() > 0);
    assert(path.last() == name.last());
    assert(name.contains(name.last()));
    nothing_but_the_name_follows_the_slash(directory, name);
    assert(name.len() > 1 ==> name.contains(name[name.len() - 2]));
    if path.last() == '.' && path[path.len() - 2] == '/' {
        if name.len() == 1 {
            assert(name == seq!['.']);
        } else {
            assert(path[path.len() - 2] == name[name.len() - 2]);
        }
    }
}

proof fn no_slash_after_the_last(path: Seq<char>)
    ensures
        !after_last_slash(path).contains('/'),
        forall|c: char| #[trigger] after_last_slash(path).contains(c) ==> path.contains(c),
    decreases path.len(),
{
    if path.len() > 0 && path.last() != '/' {
        let before = after_last_slash(path.drop_last());
        no_slash_after_the_last(path.drop_last());
        assert(after_last_slash(path) == before.push(path.last()));
        assert forall|c: char| #[trigger] after_last_slash(path).contains(c) implies c != '/'
            && path.contains(c) by {
            let i = choose|i: int| 0 <= i <= before.len() && before.push(path.last())[i] == c;
            if i < before.len() {
                assert(before.contains(before[i]));
                assert(path.drop_last().contains(c));
                let k = choose|k: int|
                    0 <= k < path.drop_last().len() && path.drop_last()[k] == c;
                assert(path[k] == c);
            } else {
                assert(path[path.len() - 1] == c);
            }
        }
    }
}

proof fn final_component_is_a_name(path: Seq<char>)
    ensures
        final_component(path) matches Some(name) ==> {
            &&& name.len() > 0
            &&& name != seq!['.']
            &&& name != seq!['.', '.']
            &&& !name.contains('/')
            &&& forall|c: char| #[trigger] name.contains(c) ==> path.contains(c)
        },
    decreases path.len(),
{
    let shorter = if path.len() > 0 && path.last() == '/' {
        Some(path.drop_last())
    } else if path.len() > 1 && path.last() == '.' && path[path.len() - 2] == '/' {
        Some(path.take(path.len() - 2))
    } else {
        None
    };
    if let Some(start) = shorter {
        final_component_is_a_name(start);
        if let Some(name) = final_component(path) {
            assert forall|c: char| #[trigger] name.contains(c) implies path.contains(c) by {
                assert(start.contains(c));
                let k = choose|k: int| 0 <= k < start.len() && start[k] == c;
                assert(path[k] == c);
            }
        }
    } else {
        no_slash_after_the_last(path);
    }
}

/// A key is a file name: whatever the path, where `/` alone separates components, its key is not
/// blank and holds no `/`, the key of a path that is nothing but that name is the name again, and
/// so is the key of that name in any directory. The name of a portable path is itself one, unless
/// it looks like a file of a drive.
pub proof fn key_is_its_own_key(path: Seq<char>, directory: Seq<char>)
    requires
        slash_model_key(path) is Ok,
    ensures
        ({
            let key = slash_model_key(path)->Ok_0;
            &&& !is_blank(key)
            &&& !key.contains('/')
            &&& slash_model_key(key) == Ok::<Seq<char>, ErrorView>(key)
            &&& slash_model_key(directory.push('/') + key) == Ok::<Seq<char>, ErrorView>(key)
            &&& is_portable_path(path) && !(key.len() > 1 && key[1] == ':') ==> is_portable_path(
                key,
            )
        }),
{
    let key = slash_model_key(path)->Ok_0;
    final_component_is_a_name(path);
    blank_iff_trimmed_empty(key);
    key_is_the_file_name(directory, key);
    if key.len() > 1 && key[0] == '/' {
        assert(key.contains('/'));
    }
}

/// The same of what the platform answers, on every path, where `/` alone separates components as
/// it does on Unix: if a path whose file name is `name` has a key, then the key is not blank and
/// holds no `/`, and a path that is nothing but that key, or the key in any directory, has the same
/// key again by the file names that these have.
pub proof fn key_is_its_own_key_behind_slashes(
    path: Seq<char>,
    name: FileName,
    directory: Seq<char>,
    name_of_key: FileName,
    name_in_directory: FileName,
)
    requires
        named_model_key(path, name) is Ok,
        is_slash_file_name(path, name),
        is_slash_file_name(named_model_key(path, name)->Ok_0, name_of_key),
        is_slash_file_name(
            directory.push('/') + named_model_key(path, name)->Ok_0,
            name_in_directory,
        ),
    ensures
        ({
            let key = named_model_key(path, name)->Ok_0;
            let again = Ok::<Seq<char>, ErrorView>(key);
            &&& !is_blank(key)
            &&& !key.contains('/')
            &&& named_model_key(key, name_of_key) == again
            &&& named_model_key(directory.push('/') + key, name_in_directory) == again
        }),
{
    key_is_its_own_key(path, directory);
}

/// The keys are listed in ascending order, each of them once, and no other.
pub proof fn key_list_is_complete<C>(models: Models<C>)
    requires
        models.inv(),
    ensures
        sorted(models.keys()).len() == models.models.len(),
        sorted(models.keys()).no_duplicates(),
        forall|key: Seq<char>|
            #[trigger] sorted(models.keys()).contains(key) <==> exists|context: C|
                models.is_model(key, context),
{
    let keys = models.keys();
    sorted_is_sorted(keys);
    keys.lemma_multiset_has_no_duplicates();
    sorted(keys).lemma_multiset_has_no_duplicates_conv();
    assert forall|key: Seq<char>| #[trigger] sorted(keys).contains(key) <==> exists|context: C|
        models.is_model(key, context) by {
        if keys.contains(key) {
            let i = choose|i: int| 0 <= i < keys.len() && keys[i] == key;
            assert(models.models[i] == (key, models.models[i].1));
            assert(models.is_model(key, models.models[i].1));
        }
        if exists|context: C| models.is_model(key, context) {
            let context = choose|context: C| models.is_model(key, context);
            let i = choose|i: int|
                0 <= i < models.models.len() && models.models[i] == (key, context);
            assert(keys[i] == key);
        }
    }
}

/// The default key is one of those that are listed.
pub proof fn default_key_is_listed<C>(models: Models<C>)
    requires
        models.inv(),
    ensures
        sorted(models.keys()).contains(models.default_key()),
        models.is_model(models.default_key(), models.models[0].1),
{
    sorted_is_sorted(models.keys());
    assert(models.keys()[0] == models.default_key());
    assert(models.models[0] == (models.default_key(), models.models[0].1));
}

/// A request is accepted with exactly the keys that are listed, and without any.
pub proof fn listed_keys_can_be_selected<C>(models: Models<C>, key: Seq<char>)
    requires
        models.inv(),
    ensures
        sorted(models.keys()).contains(key) <==> models.selected_key(Some(key)) == Ok::<
            Seq<char>,
            ErrorView,
        >(key),
        models.selected_key(Some(key)) is Err ==> models.selected_key(Some(key)) == Err::<
            Seq<char>,
            ErrorView,
        >(ErrorView::UnknownModelKey(key, models.key_list())),
        models.selected_key(None) == models.selected_key(Some(models.default_key())),
{
    sorted_is_sorted(models.keys());
    default_key_is_listed(models);
}

/// A key selects one model only.
pub proof fn key_selects_one_model<C>(models: Models<C>, key: Seq<char>, one: C, other: C)
    requires
        models.inv(),
        models.is_model(key, one),
        models.is_model(key, other),
    ensures
        one == other,
{
    let i = choose|i: int| 0 <= i < models.models.len() && models.models[i] == (key, one);
    let j = choose|j: int| 0 <= j < models.models.len() && models.models[j] == (key, other);
    assert(models.keys()[i] == key);
    assert(models.keys()[j] == key);
}

} // verus!
