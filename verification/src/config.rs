//! The identity store: a mapping from short identifiers to authors,
//! kept in a configuration file.
//!
//! The store is modelled as a map from key to identity (`as_map`); the
//! stored entry order (`entries`) only matters for the written text.
//! An empty store is a valid store, distinct from "no file found".

use vstd::prelude::*;
use crate::author::{Author, AuthorView};
use crate::codec::{
    EntryV, entries_view, ser, parse_doc, unique_keys, lemma_has_key_exists,
    lemma_unique_keys_index, lemma_parse_doc_unique, push_quoted, push_str_chars,
    string_from_chars, chars_of, parse_doc_exec,
};

verus! {

/// The fixed name of the configuration file searched for in each
/// ancestor directory.
pub fn config_file_name() -> (r: &'static str)
    ensures
        r@ == ".git-authors.toml"@,
{
    ".git-authors.toml"
}

/// The store as a map: entries folded front to back, a later entry
/// overriding an earlier one with the same key (a well-formed store has
/// no such pair).
pub open spec fn map_of(es: Seq<EntryV>) -> Map<Seq<char>, AuthorView>
    decreases es.len(),
{
    if es.len() == 0 {
        Map::empty()
    } else {
        map_of(es.drop_last()).insert(
            es.last().key,
            AuthorView { name: es.last().name, email: es.last().email },
        )
    }
}

/// A key is in the map exactly when some entry carries it.
pub proof fn lemma_map_of_contains(es: Seq<EntryV>, k: Seq<char>)
    ensures
        map_of(es).contains_key(k) <==> exists|i: int| 0 <= i < es.len() && es[i].key == k,
    decreases es.len(),
{
    if es.len() == 0 {
    } else {
        let pre = es.drop_last();
        lemma_map_of_contains(pre, k);
        assert(forall|i: int| 0 <= i < pre.len() ==> pre[i] == es[i]);
        if map_of(es).contains_key(k) {
            if k == es.last().key {
                assert(0 <= es.len() - 1 < es.len() && es[es.len() - 1].key == k);
            } else {
                let i = choose|i: int| 0 <= i < pre.len() && pre[i].key == k;
                assert(0 <= i < es.len() && es[i].key == k);
            }
        }
        if exists|i: int| 0 <= i < es.len() && es[i].key == k {
            let i = choose|i: int| 0 <= i < es.len() && es[i].key == k;
            if i < es.len() - 1 {
                assert(pre[i].key == k);
            } else {
                assert(es.last().key == k);
            }
        }
    }
}

/// With pairwise distinct keys, the map sends each entry's key to that
/// entry's identity.
pub proof fn lemma_map_of_index(es: Seq<EntryV>, i: int)
    requires
        forall|a: int, b: int| 0 <= a < b < es.len() ==> es[a].key != es[b].key,
        0 <= i < es.len(),
    ensures
        map_of(es).contains_key(es[i].key),
        map_of(es)[es[i].key] == (AuthorView { name: es[i].name, email: es[i].email }),
    decreases es.len(),
{
    let pre = es.drop_last();
    assert(forall|j: int| 0 <= j < pre.len() ==> pre[j] == es[j]);
    if i == es.len() - 1 {
        assert(es.last() == es[i]);
    } else {
        lemma_map_of_index(pre, i);
        assert(es[i].key != es[es.len() - 1].key);
        assert(es.last().key != es[i].key);
    }
}

/// Removing the entry at `i` removes exactly its key from the map.
pub proof fn lemma_map_of_remove(es: Seq<EntryV>, i: int)
    requires
        forall|a: int, b: int| 0 <= a < b < es.len() ==> es[a].key != es[b].key,
        0 <= i < es.len(),
    ensures
        map_of(es.remove(i)) == map_of(es).remove(es[i].key),
    decreases es.len(),
{
    let k = es[i].key;
    let pre = es.drop_last();
    assert(forall|j: int| 0 <= j < pre.len() ==> pre[j] == es[j]);
    if i == es.len() - 1 {
        assert(es.remove(i) =~= pre);
        lemma_map_of_contains(pre, k);
        assert(!map_of(pre).contains_key(k)) by {
            if exists|j: int| 0 <= j < pre.len() && pre[j].key == k {
                let j = choose|j: int| 0 <= j < pre.len() && pre[j].key == k;
                assert(es[j].key != es[i].key);
            }
        }
        let v = AuthorView { name: es.last().name, email: es.last().email };
        assert(map_of(pre).insert(k, v).remove(k) =~= map_of(pre));
    } else {
        lemma_map_of_remove(pre, i);
        assert(es.remove(i).len() == es.len() - 1);
        assert(es.remove(i).drop_last() =~= pre.remove(i));
        assert(es.remove(i).last() == es.last());
        let lk = es.last().key;
        let lv = AuthorView { name: es.last().name, email: es.last().email };
        assert(map_of(es.remove(i)) == map_of(pre.remove(i)).insert(lk, lv));
        assert(lk != k);
        assert(map_of(pre).remove(k).insert(lk, lv) =~= map_of(pre).insert(lk, lv).remove(k));
    }
}

/// Removing an entry keeps the remaining keys pairwise distinct, and
/// none of them is the removed entry's key if that key was unique.
proof fn lemma_remove_keeps_unique(es: Seq<EntryV>, i: int)
    requires
        forall|a: int, b: int| 0 <= a < b < es.len() ==> es[a].key != es[b].key,
        0 <= i < es.len(),
    ensures
        forall|a: int, b: int|
            0 <= a < b < es.remove(i).len() ==> es.remove(i)[a].key != es.remove(i)[b].key,
        forall|j: int| 0 <= j < es.remove(i).len() ==> es.remove(i)[j].key != es[i].key,
{
    let r = es.remove(i);
    assert(forall|j: int| 0 <= j < i ==> r[j] == es[j]);
    assert(forall|j: int| i <= j < r.len() ==> r[j] == es[j + 1]);
    assert forall|a: int, b: int| 0 <= a < b < r.len() implies r[a].key != r[b].key by {
        if b < i {
            assert(es[a].key != es[b].key);
        } else if a >= i {
            assert(es[a + 1].key != es[b + 1].key);
        } else {
            assert(es[a].key != es[b + 1].key);
        }
    }
    assert forall|j: int| 0 <= j < r.len() implies r[j].key != es[i].key by {
        if j < i {
            assert(es[j].key != es[i].key);
        } else {
            assert(es[i].key != es[j + 1].key);
        }
    }
}

/// The identity store: identifiers mapped to authors, in a stable
/// order.  Keys are unique in a well-formed store; every operation
/// preserves that.
#[derive(Debug)]
pub struct AuthorsConfig {
    pub identities: Vec<(String, Author)>,
}

impl AuthorsConfig {
    /// The stored entries, in order, as mathematical values.
    pub open spec fn entries(&self) -> Seq<EntryV> {
        entries_view(self.identities@)
    }

    /// The store as a map from identifier to identity.
    pub open spec fn as_map(&self) -> Map<Seq<char>, AuthorView> {
        map_of(self.entries())
    }

    /// Well-formed: identifiers are pairwise distinct.
    pub open spec fn wf(&self) -> bool {
        unique_keys(self.entries())
    }

    /// An empty store: valid, and distinct from "no file found".
    pub fn new() -> (c: AuthorsConfig)
        ensures
            c.wf(),
            c.entries() == Seq::<EntryV>::empty(),
            c.as_map() == Map::<Seq<char>, AuthorView>::empty(),
    {
        let c = AuthorsConfig { identities: Vec::new() };
        proof {
            assert(c.entries() =~= Seq::<EntryV>::empty());
        }
        c
    }

    /// The position of `id` among the entries, if it is stored.
    fn find_index(&self, id: &String) -> (r: Option<usize>)
        ensures
            match r {
                Some(i) => i < self.entries().len() && self.entries()[i as int].key == id@,
                None => forall|j: int| 0 <= j < self.entries().len() ==> self.entries()[j].key != id@,
            },
    {
        let ghost evs = self.entries();
        let mut i: usize = 0;
        while i < self.identities.len()
            invariant
                i <= self.identities@.len(),
                evs == self.entries(),
                evs.len() == self.identities@.len(),
                forall|j: int| 0 <= j < i ==> evs[j].key != id@,
            decreases self.identities@.len() - i,
        {
            let pair = &self.identities[i];
            if pair.0 == *id {
                proof {
                    assert(evs[i as int].key == id@);
                }
                return Some(i);
            }
            proof {
                assert(evs[i as int].key != id@);
            }
            i += 1;
        }
        None
    }

    /// Looks an identifier up: the stored identity, or `None` exactly
    /// when the identifier is unknown.
    pub fn get(&self, id: &String) -> (r: Option<&Author>)
        requires
            self.wf(),
        ensures
            match r {
                Some(a) => self.as_map().contains_key(id@) && a@ == self.as_map()[id@],
                None => !self.as_map().contains_key(id@),
            },
    {
        match self.find_index(id) {
            Some(i) => {
                proof {
                    lemma_unique_keys_index(self.entries());
                    lemma_map_of_index(self.entries(), i as int);
                }
                let pair = &self.identities[i];
                proof {
                    assert(self.entries()[i as int] == (EntryV {
                        key: pair.0@,
                        name: pair.1.name@,
                        email: pair.1.email@,
                    }));
                }
                Some(&pair.1)
            },
            None => {
                proof {
                    lemma_map_of_contains(self.entries(), id@);
                }
                None
            },
        }
    }

    /// Inserts or overwrites the identity stored under `id`: no
    /// uniqueness error, the last write wins.
    pub fn add(&mut self, id: String, author: Author)
        requires
            old(self).wf(),
        ensures
            final(self).wf(),
            final(self).as_map() == old(self).as_map().insert(id@, author@),
    {
        proof {
            lemma_unique_keys_index(old(self).entries());
        }
        match self.find_index(&id) {
            Some(i) => {
                proof {
                    lemma_map_of_remove(old(self).entries(), i as int);
                    lemma_remove_keeps_unique(old(self).entries(), i as int);
                }
                let _removed = self.identities.remove(i);
                proof {
                    assert(self.entries() =~= old(self).entries().remove(i as int));
                }
            },
            None => {},
        }
        let ghost mid = self.entries();
        proof {
            assert(forall|j: int| 0 <= j < mid.len() ==> mid[j].key != id@);
            assert(forall|a: int, b: int| 0 <= a < b < mid.len() ==> mid[a].key != mid[b].key);
        }
        let pair = (id, author);
        self.identities.push(pair);
        proof {
            assert(self.entries() =~= mid.push(
                EntryV { key: pair.0@, name: pair.1.name@, email: pair.1.email@ },
            ));
            let e = EntryV { key: pair.0@, name: pair.1.name@, email: pair.1.email@ };
            assert(self.entries().drop_last() =~= mid);
            assert(self.entries().last() == e);
            assert(self.as_map() == map_of(mid).insert(e.key, author@));
            assert(self.as_map() =~= old(self).as_map().insert(id@, author@)) by {
                lemma_map_of_contains(old(self).entries(), id@);
            }
            assert(self.wf()) by {
                lemma_unique_keys_index(self.entries());
                lemma_has_key_exists(mid, e.key);
                assert(forall|j: int| 0 <= j < self.entries().len() - 1 ==> self.entries()[j]
                    == mid[j]);
                assert forall|a: int, b: int|
                    0 <= a < b < self.entries().len() implies self.entries()[a].key
                    != self.entries()[b].key by {
                    if b < self.entries().len() - 1 {
                        assert(mid[a].key != mid[b].key);
                    } else {
                        assert(self.entries()[b] == e);
                        assert(mid[a].key != id@);
                    }
                }
            }
        }
    }

    /// Takes the identity stored under `id` out of the store.  On an
    /// unknown identifier the store is left exactly as it was and
    /// `None` is returned.
    pub fn remove(&mut self, id: &String) -> (r: Option<Author>)
        requires
            old(self).wf(),
        ensures
            final(self).wf(),
            match r {
                Some(a) => old(self).as_map().contains_key(id@) && a@ == old(self).as_map()[id@]
                    && final(self).as_map() == old(self).as_map().remove(id@),
                None => !old(self).as_map().contains_key(id@) && final(self).identities@ == old(
                    self,
                ).identities@,
            },
    {
        proof {
            lemma_unique_keys_index(old(self).entries());
        }
        match self.find_index(id) {
            Some(i) => {
                proof {
                    lemma_map_of_index(old(self).entries(), i as int);
                    lemma_map_of_remove(old(self).entries(), i as int);
                    lemma_remove_keeps_unique(old(self).entries(), i as int);
                }
                let removed = self.identities.remove(i);
                proof {
                    assert(self.entries() =~= old(self).entries().remove(i as int));
                    assert(removed.1@ == old(self).as_map()[id@]);
                    lemma_unique_keys_index(self.entries());
                }
                Some(removed.1)
            },
            None => {
                proof {
                    lemma_map_of_contains(self.entries(), id@);
                }
                None
            },
        }
    }

    /// The exact text this store is written as.
    pub fn to_toml(&self) -> (r: String)
        ensures
            r@ == ser(self.entries()),
    {
        let mut out: Vec<char> = Vec::new();
        let ghost evs = self.entries();
        let mut i: usize = 0;
        proof {
            assert(out@ =~= ser_prefix(evs, 0));
        }
        while i < self.identities.len()
            invariant
                i <= self.identities@.len(),
                evs == self.entries(),
                evs.len() == self.identities@.len(),
                out@ == ser_prefix(evs, i as int),
            decreases self.identities@.len() - i,
        {
            let pair = &self.identities[i];
            let ghost e = evs[i as int];
            proof {
                assert(e == (EntryV { key: pair.0@, name: pair.1.name@, email: pair.1.email@ }));
            }
            let ghost before = out@;
            push_quoted(&mut out, pair.0.as_str());
            push_str_chars(&mut out, " = { name = ");
            push_quoted(&mut out, pair.1.name.as_str());
            push_str_chars(&mut out, ", email = ");
            push_quoted(&mut out, pair.1.email.as_str());
            push_str_chars(&mut out, " }");
            out.push('\n');
            proof {
                assert(out@ =~= before + crate::codec::entry_line(e) + seq!['\n']);
                lemma_ser_prefix_snoc(evs, i as int);
            }
            i += 1;
        }
        proof {
            lemma_ser_prefix_all(evs);
        }
        string_from_chars(&out)
    }

    /// Reads a store from the text of a configuration file: its entries
    /// in file order, or — exactly when the text is malformed (a bad
    /// line, an unknown escape, or a duplicated identifier) — a parser
    /// message naming what went wrong.
    pub fn parse_toml(text: &str) -> (r: Result<AuthorsConfig, String>)
        ensures
            match r {
                Ok(c) => parse_doc(text@) == Some(c.entries()) && c.wf(),
                Err(_) => parse_doc(text@) is None,
            },
    {
        let v = chars_of(text);
        proof {
            assert(v@.skip(0) =~= v@);
        }
        match parse_doc_exec(&v, 0) {
            Err(reason) => Err(reason),
            Ok(es) => {
                proof {
                    lemma_parse_doc_unique(text@);
                }
                Ok(AuthorsConfig { identities: es })
            },
        }
    }
}

/// Writing a store and reading the text back yields exactly the same
/// entries: no field is lost, no key reordered, for every well-formed
/// store.
pub proof fn lemma_store_round_trip(c: AuthorsConfig)
    requires
        c.wf(),
    ensures
        parse_doc(ser(c.entries())) == Some(c.entries()),
{
    crate::codec::lemma_round_trip(c.entries());
}

/// Adding an identity and looking the same identifier up yields
/// exactly the identity supplied — empty fields included: the store
/// map after an insertion sends that identifier to that identity.
pub proof fn lemma_add_then_get(m: Map<Seq<char>, AuthorView>, id: Seq<char>, a: AuthorView)
    ensures
        m.insert(id, a).contains_key(id),
        m.insert(id, a)[id] == a,
{
}

/// What the filesystem showed at one candidate location: the intended
/// file path under an ancestor directory, and the file's text where a
/// readable file exists there.
pub struct Probe {
    pub path: String,
    pub content: Option<String>,
}

/// The text of a probe, if a readable file was there.
pub open spec fn probe_content(p: &Probe) -> Option<Seq<char>> {
    match p.content {
        Some(s) => Some(s@),
        None => None,
    }
}

/// Where the configuration file was resolved to.
pub enum Resolution {
    /// A readable, parseable file at the `index`-th candidate (the
    /// nearest first): its path and its store.
    Found { index: usize, path: String, config: AuthorsConfig },
    /// The nearest existing file is malformed: resolution stops there,
    /// it does not fall through to farther ancestors.  `message` is
    /// the parser's description of what went wrong.
    ParseFailed { index: usize, path: String, message: String },
    /// No candidate holds a file; `intended` is the working
    /// directory's own candidate path, where a new file would go.
    NoFile { intended: String },
}

/// Walks the candidate locations, nearest first: the first existing
/// file decides — it is either parsed into a store or reported as
/// malformed; only where no file exists at all does the walk end with
/// the intended location.
pub fn resolve_config(probes: &Vec<Probe>) -> (r: Resolution)
    requires
        probes@.len() > 0,
    ensures
        match r {
            Resolution::Found { index, path, config } => {
                &&& (index as int) < probes@.len()
                &&& (forall|j: int| 0 <= j < index ==> probe_content(&probes@[j]) is None)
                &&& probe_content(&probes@[index as int]) matches Some(text) && parse_doc(text)
                    == Some(config.entries())
                &&& config.wf()
                &&& path@ == probes@[index as int].path@
            },
            Resolution::ParseFailed { index, path, .. } => {
                &&& (index as int) < probes@.len()
                &&& (forall|j: int| 0 <= j < index ==> probe_content(&probes@[j]) is None)
                &&& probe_content(&probes@[index as int]) matches Some(text) && parse_doc(text)
                    is None
                &&& path@ == probes@[index as int].path@
            },
            Resolution::NoFile { intended } => {
                &&& (forall|j: int| 0 <= j < probes@.len() ==> probe_content(&probes@[j]) is None)
                &&& intended@ == probes@[0].path@
            },
        },
{
    let mut i: usize = 0;
    while i < probes.len()
        invariant
            i <= probes@.len(),
            forall|j: int| 0 <= j < i ==> probe_content(&probes@[j]) is None,
        decreases probes@.len() - i,
    {
        let probe = &probes[i];
        match &probe.content {
            Some(text) => {
                match AuthorsConfig::parse_toml(text.as_str()) {
                    Ok(config) => {
                        return Resolution::Found { index: i, path: probe.path.clone(), config };
                    },
                    Err(message) => {
                        return Resolution::ParseFailed {
                            index: i,
                            path: probe.path.clone(),
                            message,
                        };
                    },
                }
            },
            None => {},
        }
        i += 1;
    }
    Resolution::NoFile { intended: probes[0].path.clone() }
}
pub open spec fn ser_prefix(es: Seq<EntryV>, i: int) -> Seq<char> {
    ser(es.take(i))
}

/// Writing one more entry appends exactly its line.
proof fn lemma_ser_prefix_snoc(es: Seq<EntryV>, i: int)
    requires
        0 <= i < es.len(),
    ensures
        ser_prefix(es, i + 1) == ser_prefix(es, i) + crate::codec::entry_line(es[i]) + seq!['\n'],
{
    lemma_ser_concat(es.take(i), seq![es[i]]);
    assert(es.take(i + 1) =~= es.take(i) + seq![es[i]]);
    assert(seq![es[i]].drop_first() =~= Seq::<EntryV>::empty());
    assert(ser(Seq::<EntryV>::empty()) == Seq::<char>::empty());
    assert(ser(seq![es[i]]) == crate::codec::entry_line(es[i]) + seq!['\n'] + ser(
        Seq::<EntryV>::empty(),
    ));
    assert(ser_prefix(es, i) + (crate::codec::entry_line(es[i]) + seq!['\n'] + Seq::<
        char,
    >::empty()) =~= ser_prefix(es, i) + crate::codec::entry_line(es[i]) + seq!['\n']);
}

/// The full prefix is the whole text.
proof fn lemma_ser_prefix_all(es: Seq<EntryV>)
    ensures
        ser_prefix(es, es.len() as int) == ser(es),
{
    assert(es.take(es.len() as int) =~= es);
}

/// Writing a concatenation writes the pieces one after the other.
proof fn lemma_ser_concat(a: Seq<EntryV>, b: Seq<EntryV>)
    ensures
        ser(a + b) == ser(a) + ser(b),
    decreases a.len(),
{
    if a.len() == 0 {
        assert(a + b =~= b);
        assert(ser(a) + ser(b) =~= ser(b));
    } else {
        assert((a + b)[0] == a[0]);
        assert((a + b).len() > 0);
        assert((a + b).drop_first() =~= a.drop_first() + b);
        lemma_ser_concat(a.drop_first(), b);
        let line = crate::codec::entry_line(a[0]) + seq!['\n'];
        assert(ser(a + b) == line + (ser(a.drop_first()) + ser(b)));
        assert(line + (ser(a.drop_first()) + ser(b)) =~= (line + ser(a.drop_first())) + ser(b));
        assert(ser(a) == line + ser(a.drop_first()));
    }
}

} // verus!
