//! Durable snapshots: one JSON file per persona, written through a
//! temporary path and renamed into place.  This module computes the bytes,
//! the paths, and the reload of a whole directory's worth of files; the
//! surrounding process moves them to and from disk.

use vstd::prelude::*;

use crate::dict::Dict;
use crate::errors::Error;
use crate::json::{json_parse_bytes, obj2_view, parse_json_bytes, value_object, obj_pairs};
use crate::memstore::{
    persona_data_value, persona_model, persona_wf, store_data_wf, store_model, AppData, Hier,
    PersonaData, StoreData,
};
use crate::strutil::str_eq;

verus! {

/// The persona whose data a directory entry holds: the stem of a name
/// ending in `.json`.
pub open spec fn json_file_stem(name: Seq<char>) -> Option<Seq<char>> {
    if name.len() > 5 && name.subrange(name.len() - 5, name.len() as int) == ".json"@ {
        Some(name.subrange(0, name.len() - 5))
    } else {
        None
    }
}

/// The persona hierarchy a file's bytes hold, if they are well-formed.
pub open spec fn persona_decode_model(bytes: Seq<u8>) -> Option<
    Map<Seq<char>, Map<Seq<char>, serde_json::Value>>,
> {
    match json_parse_bytes(bytes) {
        None => None,
        Some(v) => obj2_view(v),
    }
}

/// The hierarchy a directory's files reload to: each well-formed `.json`
/// file contributes its persona, later files winning a name clash; an
/// unreadable or malformed file contributes nothing.
pub open spec fn assemble_model(files: Seq<(String, Vec<u8>)>) -> Hier
    decreases files.len(),
{
    if files.len() == 0 {
        Map::empty()
    } else {
        let rest = assemble_model(files.drop_last());
        let f = files.last();
        match json_file_stem(f.0@) {
            None => rest,
            Some(stem) => match persona_decode_model(f.1@) {
                None => rest,
                Some(pm) => rest.insert(stem, pm),
            },
        }
    }
}

/// The serialized bytes, temporary path and final path of one persona's
/// durable snapshot.
pub struct SavePlan {
    /// The pretty-printed JSON bytes to write.
    pub bytes: Vec<u8>,
    /// The staging path written first.
    pub temp_path: String,
    /// The canonical path the staging file is renamed to.
    pub file_path: String,
}

/// Computes paths and reload shapes for the per-persona files of one data
/// directory.
pub struct Persistence {
    data_dir: String,
}

impl Persistence {
    /// The directory the files live in.
    pub closed spec fn dir(&self) -> Seq<char> {
        self.data_dir@
    }

    /// A handler for the given directory.
    pub fn new(dir: &str) -> (r: Self)
        ensures
            r.dir() == dir@,
    {
        Persistence { data_dir: dir.to_owned() }
    }

    /// The directory path, for the process that does the file I/O.
    pub fn data_dir(&self) -> (r: &String)
        ensures
            r@ == self.dir(),
    {
        &self.data_dir
    }

    /// The canonical path of a persona's file.
    pub fn file_path(&self, persona_id: &str) -> (r: String)
        ensures
            r@ == self.dir() + "/"@ + persona_id@ + ".json"@,
    {
        self.data_dir.clone().concat("/").concat(persona_id).concat(".json")
    }

    /// The staging path written before the rename.
    pub fn temp_path(&self, persona_id: &str) -> (r: String)
        ensures
            r@ == self.dir() + "/"@ + persona_id@ + ".json.tmp"@,
    {
        self.data_dir.clone().concat("/").concat(persona_id).concat(".json.tmp")
    }

    /// The write-then-rename plan for one persona's data: the encoded
    /// bytes, a staging path, and the final path.  Whenever the bytes parse
    /// back at all, they parse back to the same hierarchy.
    pub fn save_persona_plan(&self, persona_id: &str, data: &PersonaData) -> (r: Result<
        SavePlan,
        Error,
    >)
        requires
            persona_wf(*data),
        ensures
            r is Ok,
            match r {
                Ok(plan) => {
                    &&& json_parse_bytes(plan.bytes@) is Some ==> persona_decode_model(plan.bytes@)
                        == Some(persona_model(*data))
                    &&& plan.file_path@ == self.dir() + "/"@ + persona_id@ + ".json"@
                    &&& plan.temp_path@ == self.dir() + "/"@ + persona_id@ + ".json.tmp"@
                },
                Err(_) => false,
            },
    {
        let bytes = match encode_persona(data) {
            Ok(b) => b,
            Err(e) => {
                return Err(e);
            },
        };
        Ok(
            SavePlan {
                bytes,
                temp_path: self.temp_path(persona_id),
                file_path: self.file_path(persona_id),
            },
        )
    }

    /// Reloads a whole directory: each entry is a file name with the bytes
    /// read from it.  A name not ending in `.json`, or bytes that do not
    /// parse to a persona hierarchy, are skipped, never an error.
    pub fn load_all(&self, files: Vec<(String, Vec<u8>)>) -> (r: StoreData)
        ensures
            store_data_wf(r),
            store_model(r) == assemble_model(files@),
    {
        let n = files.len();
        let mut data: StoreData = Dict::new();
        let mut i: usize = 0;
        while i < n
            invariant
                n == files@.len(),
                i <= n,
                store_data_wf(data),
                store_model(data) == assemble_model(files@.take(i as int)),
            decreases n - i,
        {
            let ghost pre = store_model(data);
            let f = &files[i];
            match stem_of(f.0.as_str()) {
                None => {
                },
                Some(stem) => {
                    let ghost stemv = stem@;
                    match decode_persona(f.1.as_slice()) {
                        Ok(pd) => {
                            let ghost pm = persona_model(pd);
                            data.insert(stem, pd);
                            proof {
                                assert(store_model(data) =~~= pre.insert(stemv, pm));
                            }
                        },
                        Err(_) => {
                        },
                    }
                },
            }
            i = i + 1;
            proof {
                assert(files@.take(i as int).drop_last() =~= files@.take(i - 1));
                assert(files@.take(i as int).last() == files@[i - 1]);
            }
        }
        proof {
            assert(files@.take(n as int) =~= files@);
        }
        data
    }
}

/// Whether the name is a persona file name, and its stem.
fn stem_of(name: &str) -> (r: Option<String>)
    ensures
        match r {
            Some(stem) => json_file_stem(name@) == Some(stem@),
            None => json_file_stem(name@) is None,
        },
{
    let n = name.unicode_len();
    if n <= 5 {
        return None;
    }
    let suffix = name.substring_char(n - 5, n);
    if str_eq(suffix, ".json") {
        Some(name.substring_char(0, n - 5).to_owned())
    } else {
        None
    }
}

/// One persona's data as pretty JSON bytes: the pretty rendering of a JSON
/// object holding exactly the persona's hierarchy.  Whenever the bytes
/// parse back at all, they parse back to that hierarchy.
pub fn encode_persona(data: &PersonaData) -> (r: Result<Vec<u8>, Error>)
    requires
        persona_wf(*data),
    ensures
        r is Ok,
        match r {
            Ok(b) => {
                &&& exists|w: serde_json::Value|
                    #![trigger obj2_view(w)]
                    {
                        &&& obj2_view(w) == Some(persona_model(*data))
                        &&& b@ == crate::json::json_pretty_bytes(w)
                    }
                &&& (json_parse_bytes(b@) is Some ==> persona_decode_model(b@) == Some(
                    persona_model(*data),
                ))
            },
            Err(_) => false,
        },
{
    let v = persona_data_value(data);
    let b = crate::json::to_json_pretty(&v).unwrap();
    proof {
        assert(obj2_view(v) == Some(persona_model(*data)));
    }
    Ok(b)
}

/// One persona's data read back from file bytes; fails exactly when the
/// bytes are not a JSON object of objects.
pub fn decode_persona(bytes: &[u8]) -> (r: Result<PersonaData, Error>)
    ensures
        match r {
            Ok(d) => persona_wf(d) && persona_decode_model(bytes@) == Some(persona_model(d)),
            Err(e) => persona_decode_model(bytes@) is None && e matches Error::Serialization(_),
        },
{
    let v = match parse_json_bytes(bytes) {
        Some(v) => v,
        None => {
            return Err(Error::Serialization("invalid json".to_owned()));
        },
    };
    let m = match value_object(&v) {
        Some(m) => m,
        None => {
            return Err(Error::Serialization("not a json object".to_owned()));
        },
    };
    let pairs = obj_pairs(m);
    let ghost entries = crate::json::obj_entries(*m);
    let n = pairs.len();
    let mut d: PersonaData = Dict::new();
    let mut i: usize = 0;
    while i < n
        invariant
            n == pairs@.len(),
            i <= n,
            crate::dict::keys_distinct(pairs@),
            crate::dict::map_of(pairs@) == entries,
            entries == crate::json::obj_entries(*m),
            crate::json::object_content(v) == Some(*m),
            json_parse_bytes(bytes@) == Some(v),
            persona_wf(d),
            forall|j: int| 0 <= j < i ==> #[trigger] d@.contains_key(pairs@[j].0@),
            forall|j: int|
                0 <= j < i ==> crate::json::obj_view(#[trigger] pairs@[j].1) is Some,
            forall|k: Seq<char>| #[trigger]
                d@.contains_key(k) ==> exists|j: int|
                    0 <= j < i && (#[trigger] pairs@[j]).0@ == k && crate::json::obj_view(
                        pairs@[j].1,
                    ) == Some(d@[k]@),
        decreases n - i,
    {
        let pair = &pairs[i];
        let subm = match value_object(&pair.1) {
            Some(m2) => m2,
            None => {
                proof {
                    crate::dict::lemma_map_of_index(pairs@, i as int);
                    let k0 = pairs@[i as int].0@;
                    assert(crate::json::obj_entries(*m).contains_key(k0));
                    assert(crate::json::obj_view(crate::json::obj_entries(*m)[k0]) is None);
                    assert(!(forall|k: Seq<char>|
                        crate::json::obj_entries(*m).contains_key(k) ==> crate::json::obj_view(
                            #[trigger] crate::json::obj_entries(*m)[k],
                        ) is Some));
                    assert(obj2_view(v) is None);
                }
                return Err(Error::Serialization("not a json object".to_owned()));
            },
        };
        let inner_pairs = obj_pairs(subm);
        let app = app_from_pairs(inner_pairs);
        proof {
            crate::dict::lemma_map_of_index(pairs@, i as int);
        }
        d.insert(pair.0.clone(), app);
        i = i + 1;
    }
    proof {
        crate::dict::lemma_map_of_dom(pairs@);
        assert forall|k: Seq<char>| #[trigger] entries.contains_key(k) implies d@.contains_key(
            k,
        ) by {
            let j = choose|j: int| 0 <= j < pairs@.len() && (#[trigger] pairs@[j]).0@ == k;
            assert(d@.contains_key(pairs@[j].0@));
        }
        assert forall|k: Seq<char>| #[trigger]
            entries.contains_key(k) implies crate::json::obj_view(entries[k]) is Some by {
            let j = choose|j: int| 0 <= j < pairs@.len() && (#[trigger] pairs@[j]).0@ == k;
            crate::dict::lemma_map_of_index(pairs@, j);
            assert(crate::json::obj_view(pairs@[j].1) is Some);
        }
        assert(obj2_view(v) == Some(
            entries.map_values(|x: serde_json::Value| crate::json::obj_view(x).unwrap()),
        ));
        assert forall|k: Seq<char>| #[trigger] d@.contains_key(k) implies entries.contains_key(k)
            && crate::json::obj_view(entries[k]) == Some(d@[k]@) by {
            let j = choose|j: int|
                0 <= j < pairs@.len() && (#[trigger] pairs@[j]).0@ == k && crate::json::obj_view(
                    pairs@[j].1,
                ) == Some(d@[k]@);
            crate::dict::lemma_map_of_index(pairs@, j);
        }
        assert(persona_model(d) =~~= entries.map_values(
            |x: serde_json::Value| crate::json::obj_view(x).unwrap(),
        ));
    }
    Ok(d)
}

/// An app table from member pairs.
fn app_from_pairs(pairs: Vec<(String, serde_json::Value)>) -> (r: AppData)
    requires
        crate::dict::keys_distinct(pairs@),
    ensures
        r.wf(),
        r@ == crate::dict::map_of(pairs@),
{
    let n = pairs.len();
    let mut d: AppData = Dict::new();
    let mut i: usize = 0;
    while i < n
        invariant
            n == pairs@.len(),
            i <= n,
            crate::dict::keys_distinct(pairs@),
            d.wf(),
            d@ == crate::dict::map_of(pairs@.take(i as int)),
        decreases n - i,
    {
        let pair = &pairs[i];
        d.insert(pair.0.clone(), crate::json::clone_value(&pair.1));
        proof {
            assert(pairs@.take(i + 1).drop_last() =~= pairs@.take(i as int));
            assert(pairs@.take(i + 1).last() == pairs@[i as int]);
        }
        i = i + 1;
    }
    proof {
        assert(pairs@.take(n as int) =~= pairs@);
    }
    d
}

/// Law: a persona written through `save_persona_plan` under its canonical
/// file name and reloaded as a directory of one file yields exactly that
/// persona's hierarchy again.
pub proof fn lemma_save_then_load(
    name: String,
    bytes: Vec<u8>,
    pm: Map<Seq<char>, Map<Seq<char>, serde_json::Value>>,
)
    requires
        json_file_stem(name@) is Some,
        persona_decode_model(bytes@) == Some(pm),
    ensures
        assemble_model(seq![(name, bytes)]) == Map::<
            Seq<char>,
            Map<Seq<char>, Map<Seq<char>, serde_json::Value>>,
        >::empty().insert(json_file_stem(name@).unwrap(), pm),
{
    let files: Seq<(String, Vec<u8>)> = seq![(name, bytes)];
    assert(files.drop_last() =~= Seq::<(String, Vec<u8>)>::empty());
    assert(files.last() == (name, bytes));
    assert(assemble_model(files.drop_last()) =~~= Map::<
        Seq<char>,
        Map<Seq<char>, Map<Seq<char>, serde_json::Value>>,
    >::empty());
    assert(json_file_stem(files.last().0@) == json_file_stem(name@));
    assert(persona_decode_model(files.last().1@) == Some(pm));
    assert(assemble_model(files) == assemble_model(files.drop_last()).insert(
        json_file_stem(name@).unwrap(),
        pm,
    ));
}

/// Law: a directory holding exactly one well-formed file for each persona
/// of a hierarchy — every file named for a persona, no two files for the
/// same persona, each file's bytes decoding to that persona's data, and no
/// persona without a file — reloads to exactly that hierarchy.
pub proof fn lemma_reload_equivalence(files: Seq<(String, Vec<u8>)>, h: Hier)
    requires
        forall|i: int| 0 <= i < files.len() ==> json_file_stem((#[trigger] files[i]).0@) is Some,
        forall|i: int, j: int|
            0 <= i < j < files.len() ==> json_file_stem((#[trigger] files[i]).0@)
                != json_file_stem((#[trigger] files[j]).0@),
        forall|i: int|
            0 <= i < files.len() ==> h.contains_key(
                json_file_stem((#[trigger] files[i]).0@).unwrap(),
            ),
        forall|i: int|
            0 <= i < files.len() ==> persona_decode_model((#[trigger] files[i]).1@) == Some(
                h[json_file_stem(files[i].0@).unwrap()],
            ),
        forall|p: Seq<char>| #[trigger]
            h.contains_key(p) ==> exists|i: int|
                0 <= i < files.len() && json_file_stem((#[trigger] files[i]).0@) == Some(p),
    ensures
        assemble_model(files) == h,
    decreases files.len(),
{
    if files.len() == 0 {
        assert forall|p: Seq<char>| !(#[trigger] h.contains_key(p)) by {
            if h.contains_key(p) {
                let i = choose|i: int|
                    0 <= i < files.len() && json_file_stem((#[trigger] files[i]).0@) == Some(p);
            }
        }
        assert(assemble_model(files) =~~= h);
    } else {
        let n = files.len() as int;
        let last = files[n - 1];
        let stem = json_file_stem(last.0@).unwrap();
        let rest = files.drop_last();
        let h2 = h.remove(stem);
        assert forall|i: int|
            0 <= i < rest.len() implies json_file_stem((#[trigger] rest[i]).0@) is Some by {
            assert(rest[i] == files[i]);
        }
        assert forall|i: int, j: int|
            0 <= i < j < rest.len() implies json_file_stem((#[trigger] rest[i]).0@)
            != json_file_stem((#[trigger] rest[j]).0@) by {
            assert(rest[i] == files[i] && rest[j] == files[j]);
        }
        assert forall|i: int| 0 <= i < rest.len() implies h2.contains_key(
            json_file_stem((#[trigger] rest[i]).0@).unwrap(),
        ) by {
            assert(rest[i] == files[i]);
            assert(json_file_stem(files[i].0@) != json_file_stem(files[n - 1].0@));
        }
        assert forall|i: int|
            0 <= i < rest.len() implies persona_decode_model((#[trigger] rest[i]).1@) == Some(
            h2[json_file_stem(rest[i].0@).unwrap()],
        ) by {
            assert(rest[i] == files[i]);
            assert(json_file_stem(files[i].0@) != json_file_stem(files[n - 1].0@));
        }
        assert forall|p: Seq<char>| #[trigger] h2.contains_key(p) implies exists|i: int|
            0 <= i < rest.len() && json_file_stem((#[trigger] rest[i]).0@) == Some(p) by {
            assert(h.contains_key(p));
            let i = choose|i: int|
                0 <= i < files.len() && json_file_stem((#[trigger] files[i]).0@) == Some(p);
            assert(p != stem);
            assert(i != n - 1);
            assert(rest[i] == files[i]);
            assert(json_file_stem((rest[i]).0@) == Some(p));
        }
        lemma_reload_equivalence(rest, h2);
        assert(persona_decode_model(last.1@) == Some(h[stem]));
        assert(assemble_model(files) == h2.insert(stem, h[stem]));
        assert(h2.insert(stem, h[stem]) =~~= h);
    }
}

} // verus!
