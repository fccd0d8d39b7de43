//! The header map: a case-insensitive name-to-value store. Names are
//! ASCII-lowercased before storing and looking up, so two names that differ
//! only in case address the same entry. The map's mathematical value is a
//! `Map` from lowercased name bytes to value bytes.

use vstd::prelude::*;
use vstd::string::StringSliceAdditionalSpecFns;
use vstd::utf8::{decode_utf8, valid_utf8};

use crate::strutil::{
    bytes_eq, contains_keyword, copy_bytes, lower_bytes, spec_contains_keyword, spec_lower,
    utf8_to_string,
};

verus! {

/// Read access to headers, looked up case-insensitively by name.
pub trait Headers {
    /// Whether the receiver is in its usable state.
    spec fn hwf(&self) -> bool;

    /// The stored value for a name given as bytes; lookup lowercases the
    /// name first.
    spec fn spec_get(&self, name: Seq<u8>) -> Option<Seq<u8>>;

    fn get_header(&self, name: &str) -> (r: Option<String>)
        requires
            self.hwf(),
        ensures
            r is Some <==> (self.spec_get(name.spec_bytes()) matches Some(v) && valid_utf8(v)),
            r matches Some(s) ==> (self.spec_get(name.spec_bytes()) matches Some(v) && s@
                == decode_utf8(v)),
    ;

    fn has_header(&self, name: &str) -> (r: bool)
        requires
            self.hwf(),
        ensures
            r == (self.spec_get(name.spec_bytes()) is Some),
    ;

    fn get_header_bytes(&self, name: &str) -> (r: Option<Vec<u8>>)
        requires
            self.hwf(),
        ensures
            r is Some <==> self.spec_get(name.spec_bytes()) is Some,
            r matches Some(v) ==> self.spec_get(name.spec_bytes()) == Some(v@),
    ;
}

/// Derived queries on headers: exact value comparison and comma-list
/// keyword search.
pub trait HeadersUtil: Headers {
    fn has_header_value(&self, name: &str, value: &str) -> (r: bool)
        requires
            self.hwf(),
        ensures
            r == (self.spec_get(name.spec_bytes()) == Some(value.spec_bytes())),
    ;

    fn has_header_keyword(&self, name: &str, keyword: &str) -> (r: bool)
        requires
            self.hwf(),
        ensures
            r == (self.spec_get(name.spec_bytes()) matches Some(v) && spec_contains_keyword(
                v,
                keyword.spec_bytes(),
            )),
    ;
}

/// Write access to headers.
pub trait HeadersMutable: Headers {
    fn set_header(&mut self, name: &str, value: &str)
        requires
            old(self).hwf(),
        ensures
            final(self).hwf(),
            forall|k: Seq<u8>|
                #[trigger] final(self).spec_get(k) == if spec_lower(k) == spec_lower(
                    name.spec_bytes(),
                ) {
                    Some(value.spec_bytes())
                } else {
                    old(self).spec_get(k)
                },
    ;

    fn remove_header(&mut self, name: &str)
        requires
            old(self).hwf(),
        ensures
            final(self).hwf(),
            forall|k: Seq<u8>|
                #[trigger] final(self).spec_get(k) == if spec_lower(k) == spec_lower(
                    name.spec_bytes(),
                ) {
                    None
                } else {
                    old(self).spec_get(k)
                },
    ;
}

/// Case-insensitivity of the store: for any two names equal up to ASCII
/// case, setting a value under the first and looking it up under the
/// second yields that value. This is the law behind `set_header` followed
/// by `get_header`, whose contracts key the map by the lowercased name.
pub proof fn lemma_case_insensitive_round_trip(
    m: Map<Seq<u8>, Seq<u8>>,
    name_set: Seq<u8>,
    name_get: Seq<u8>,
    value: Seq<u8>,
)
    requires
        spec_lower(name_set) == spec_lower(name_get),
    ensures
        m.insert(spec_lower(name_set), value).contains_key(spec_lower(name_get)),
        m.insert(spec_lower(name_set), value)[spec_lower(name_get)] == value,
{
}

struct HeaderEntry {
    name: Vec<u8>,
    value: Vec<u8>,
}

/// The value stored under `key` (already lowercased), scanning front to
/// back.
spec fn spec_find(s: Seq<HeaderEntry>, key: Seq<u8>) -> Option<Seq<u8>>
    decreases s.len(),
{
    if s.len() == 0 {
        None
    } else if s[0].name@ == key {
        Some(s[0].value@)
    } else {
        spec_find(s.drop_first(), key)
    }
}

/// A case-insensitive header store. Invariant: stored names are lowercased
/// and pairwise distinct, so the entry list denotes a map.
pub struct HeaderMap {
    entries: Vec<HeaderEntry>,
}

impl View for HeaderMap {
    type V = Map<Seq<u8>, Seq<u8>>;

    closed spec fn view(&self) -> Map<Seq<u8>, Seq<u8>> {
        Map::new(
            |k: Seq<u8>| spec_find(self.entries@, k) is Some,
            |k: Seq<u8>| spec_find(self.entries@, k)->0,
        )
    }
}

proof fn lemma_find_skip(s: Seq<HeaderEntry>, key: Seq<u8>, i: int)
    requires
        0 <= i <= s.len(),
        forall|j: int| 0 <= j < i ==> s[j].name@ != key,
    ensures
        spec_find(s, key) == spec_find(s.skip(i), key),
    decreases i,
{
    if i == 0 {
        assert(s.skip(0) =~= s);
    } else {
        assert(s.drop_first().skip(i - 1) =~= s.skip(i));
        lemma_find_skip(s.drop_first(), key, i - 1);
    }
}

proof fn lemma_find_absent(s: Seq<HeaderEntry>, key: Seq<u8>)
    requires
        forall|j: int| 0 <= j < s.len() ==> s[j].name@ != key,
    ensures
        spec_find(s, key) is None,
    decreases s.len(),
{
    if s.len() > 0 {
        lemma_find_absent(s.drop_first(), key);
    }
}

proof fn lemma_find_none_absent(s: Seq<HeaderEntry>, key: Seq<u8>)
    requires
        spec_find(s, key) is None,
    ensures
        forall|j: int| 0 <= j < s.len() ==> s[j].name@ != key,
    decreases s.len(),
{
    if s.len() > 0 {
        lemma_find_none_absent(s.drop_first(), key);
        assert forall|j: int| 0 <= j < s.len() implies s[j].name@ != key by {
            if j > 0 {
                assert(s.drop_first()[j - 1] == s[j]);
            }
        }
    }
}

proof fn lemma_find_push(s: Seq<HeaderEntry>, e: HeaderEntry, key: Seq<u8>)
    ensures
        spec_find(s.push(e), key) == if spec_find(s, key) is Some {
            spec_find(s, key)
        } else if e.name@ == key {
            Some(e.value@)
        } else {
            None
        },
    decreases s.len(),
{
    if s.len() == 0 {
        assert(s.push(e)[0] == e);
        assert(s.push(e).drop_first() =~= Seq::<HeaderEntry>::empty());
    } else {
        assert(s.push(e)[0] == s[0]);
        assert(s.push(e).drop_first() =~= s.drop_first().push(e));
        lemma_find_push(s.drop_first(), e, key);
    }
}

proof fn lemma_find_remove(s: Seq<HeaderEntry>, i: int, key: Seq<u8>)
    requires
        0 <= i < s.len(),
        forall|j: int| 0 <= j < s.len() && s[j].name@ == s[i].name@ ==> j == i,
    ensures
        spec_find(s.remove(i), key) == if key == s[i].name@ {
            None
        } else {
            spec_find(s, key)
        },
    decreases i,
{
    if i == 0 {
        assert(s.remove(0) =~= s.drop_first());
        if key == s[0].name@ {
            assert forall|j: int| 0 <= j < s.drop_first().len() implies s.drop_first()[j].name@
                != key by {
                assert(s.drop_first()[j] == s[j + 1]);
            }
            lemma_find_absent(s.drop_first(), key);
        }
    } else {
        assert(s.remove(i)[0] == s[0]);
        assert(s.remove(i).drop_first() =~= s.drop_first().remove(i - 1));
        assert forall|j: int|
            0 <= j < s.drop_first().len() && (#[trigger] s.drop_first()[j]).name@
                == s.drop_first()[i - 1].name@ implies j == i - 1 by {
            assert(s.drop_first()[j] == s[j + 1]);
        }
        lemma_find_remove(s.drop_first(), i - 1, key);
        if key == s[0].name@ {
            assert(key != s[i].name@);
        }
    }
}

/// Two entry lists whose names and values agree pointwise denote the same
/// map.
proof fn lemma_find_view_eq(s1: Seq<HeaderEntry>, s2: Seq<HeaderEntry>, key: Seq<u8>)
    requires
        s1.len() == s2.len(),
        forall|j: int|
            0 <= j < s1.len() ==> (#[trigger] s1[j]).name@ == s2[j].name@ && s1[j].value@
                == s2[j].value@,
    ensures
        spec_find(s1, key) == spec_find(s2, key),
    decreases s1.len(),
{
    if s1.len() > 0 {
        assert forall|j: int|
            0 <= j < s1.drop_first().len() implies (#[trigger] s1.drop_first()[j]).name@
            == s2.drop_first()[j].name@ && s1.drop_first()[j].value@
            == s2.drop_first()[j].value@ by {
            assert(s1.drop_first()[j] == s1[j + 1]);
            assert(s2.drop_first()[j] == s2[j + 1]);
        }
        lemma_find_view_eq(s1.drop_first(), s2.drop_first(), key);
    }
}

impl HeaderMap {
    /// Stored names are lowercased and pairwise distinct.
    pub closed spec fn wf(&self) -> bool {
        &&& forall|i: int|
            0 <= i < self.entries@.len() ==> (#[trigger] self.entries@[i]).name@ == spec_lower(
                self.entries@[i].name@,
            )
        &&& forall|i: int, j: int|
            0 <= i < j < self.entries@.len() ==> self.entries@[i].name@ != self.entries@[j].name@
    }

    /// The value stored under `name`, which is lowercased before lookup.
    pub open spec fn lookup(&self, name: Seq<u8>) -> Option<Seq<u8>> {
        if self@.contains_key(spec_lower(name)) {
            Some(self@[spec_lower(name)])
        } else {
            None
        }
    }

    pub fn new() -> (r: HeaderMap)
        ensures
            r.wf(),
            r@ == Map::<Seq<u8>, Seq<u8>>::empty(),
    {
        let r = HeaderMap { entries: Vec::new() };
        proof {
            assert forall|k: Seq<u8>| !(#[trigger] r@.contains_key(k)) by {
                assert(spec_find(r.entries@, k) is None);
            }
            assert(r@ =~= Map::<Seq<u8>, Seq<u8>>::empty());
        }
        r
    }

    /// Index of the entry whose (lowercased) name equals `key`.
    fn find_index(&self, key: &[u8]) -> (r: Option<usize>)
        ensures
            r matches Some(i) ==> i < self.entries@.len() && self.entries@[i as int].name@ == key@
                && spec_find(self.entries@, key@) == Some(self.entries@[i as int].value@),
            r is None ==> spec_find(self.entries@, key@) is None,
    {
        let n = self.entries.len();
        let mut i: usize = 0;
        while i < n
            invariant
                i <= n,
                n == self.entries@.len(),
                forall|j: int| 0 <= j < i ==> self.entries@[j].name@ != key@,
            decreases n - i,
        {
            if bytes_eq(self.entries[i].name.as_slice(), key) {
                proof {
                    lemma_find_skip(self.entries@, key@, i as int);
                    assert(self.entries@.skip(i as int)[0] == self.entries@[i as int]);
                }
                return Some(i);
            }
            i = i + 1;
        }
        proof {
            lemma_find_skip(self.entries@, key@, n as int);
            assert(self.entries@.skip(n as int) =~= Seq::<HeaderEntry>::empty());
        }
        None
    }

    /// Store `value` under `name`, overwriting any entry whose name equals
    /// it up to ASCII case.
    pub fn set_bytes(&mut self, name: &[u8], value: &[u8])
        requires
            old(self).wf(),
        ensures
            final(self).wf(),
            final(self)@ == old(self)@.insert(spec_lower(name@), value@),
    {
        let key = lower_bytes(name);
        let ghost pre = self.entries@;
        let ghost k0 = spec_lower(name@);
        match self.find_index(key.as_slice()) {
            Some(i) => {
                self.entries.remove(i);
                proof {
                    let mid = self.entries@;
                    assert forall|j: int| 0 <= j < mid.len() implies mid[j] == (if j < i {
                        pre[j]
                    } else {
                        pre[j + 1]
                    }) by {
                        assert(mid =~= pre.remove(i as int));
                    }
                    assert forall|k: Seq<u8>|
                        #[trigger] spec_find(mid, k) == (if k == k0 {
                            None::<Seq<u8>>
                        } else {
                            spec_find(pre, k)
                        }) by {
                        lemma_find_remove(pre, i as int, k);
                    }
                }
            },
            None => {},
        }
        let ghost mid = self.entries@;
        proof {
            lemma_find_none_absent(mid, k0);
        }
        let entry = HeaderEntry { name: key, value: copy_bytes(value) };
        let ghost ge_name = entry.name@;
        let ghost ge_value = entry.value@;
        self.entries.push(entry);
        proof {
            let post = self.entries@;
            assert(ge_name == k0 && ge_value == value@);
            assert(spec_lower(k0) =~= k0);
            assert forall|j: int|
                0 <= j < post.len() implies (#[trigger] post[j]).name@ == spec_lower(post[j].name@)
                && (j < post.len() - 1 ==> post[j].name@ != k0 && post[j] == mid[j]) by {}
            assert(final(self).wf());
            assert forall|k: Seq<u8>|
                #[trigger] spec_find(post, k) == (if k == k0 {
                    Some(value@)
                } else {
                    spec_find(pre, k)
                }) by {
                lemma_find_push(mid, post.last(), k);
            }
            assert(self@ =~= old(self)@.insert(k0, value@));
        }
    }

    /// Remove the entry whose name equals `name` up to ASCII case, if any.
    pub fn remove_bytes(&mut self, name: &[u8])
        requires
            old(self).wf(),
        ensures
            final(self).wf(),
            final(self)@ == old(self)@.remove(spec_lower(name@)),
    {
        let key = lower_bytes(name);
        let ghost pre = self.entries@;
        match self.find_index(key.as_slice()) {
            Some(i) => {
                self.entries.remove(i);
                proof {
                    assert forall|k: Seq<u8>|
                        #[trigger] spec_find(self.entries@, k) == if k == key@ {
                            None::<Seq<u8>>
                        } else {
                            spec_find(pre, k)
                        } by {
                        lemma_find_remove(pre, i as int, k);
                    }
                    assert(self@ =~= old(self)@.remove(key@));
                }
            },
            None => {
                proof {
                    lemma_find_none_absent(pre, key@);
                    assert(self@ =~= old(self)@.remove(key@));
                }
            },
        }
    }

    /// A copy of the stored value for `name`.
    pub fn get_bytes(&self, name: &[u8]) -> (r: Option<Vec<u8>>)
        ensures
            r is Some <==> self.lookup(name@) is Some,
            r matches Some(v) ==> self.lookup(name@) == Some(v@),
    {
        let key = lower_bytes(name);
        match self.find_index(key.as_slice()) {
            Some(i) => Some(copy_bytes(self.entries[i].value.as_slice())),
            None => None,
        }
    }

    /// A map with the same contents.
    pub fn copy(&self) -> (r: HeaderMap)
        requires
            self.wf(),
        ensures
            r.wf(),
            r@ == self@,
    {
        let n = self.entries.len();
        let mut entries: Vec<HeaderEntry> = Vec::new();
        let mut i: usize = 0;
        while i < n
            invariant
                i <= n,
                n == self.entries@.len(),
                entries@.len() == i,
                forall|j: int|
                    0 <= j < i ==> (#[trigger] entries@[j]).name@ == self.entries@[j].name@
                        && entries@[j].value@ == self.entries@[j].value@,
            decreases n - i,
        {
            entries.push(
                HeaderEntry {
                    name: copy_bytes(self.entries[i].name.as_slice()),
                    value: copy_bytes(self.entries[i].value.as_slice()),
                },
            );
            i = i + 1;
        }
        let r = HeaderMap { entries };
        proof {
            assert forall|k: Seq<u8>|
                #[trigger] spec_find(r.entries@, k) == spec_find(self.entries@, k) by {
                lemma_find_view_eq(r.entries@, self.entries@, k);
            }
            assert(r@ =~= self@);
        }
        r
    }
}

/// A fresh map with the same contents as `headers`.
pub fn copy_headers(headers: &HeaderMap) -> (r: HeaderMap)
    requires
        headers.wf(),
    ensures
        r.wf(),
        r@ == headers@,
{
    headers.copy()
}

impl Headers for HeaderMap {
    open spec fn hwf(&self) -> bool {
        self.wf()
    }

    open spec fn spec_get(&self, name: Seq<u8>) -> Option<Seq<u8>> {
        self.lookup(name)
    }

    fn get_header(&self, name: &str) -> (r: Option<String>) {
        match self.get_bytes(name.as_bytes()) {
            Some(v) => utf8_to_string(v),
            None => None,
        }
    }

    fn has_header(&self, name: &str) -> (r: bool) {
        let key = lower_bytes(name.as_bytes());
        self.find_index(key.as_slice()).is_some()
    }

    fn get_header_bytes(&self, name: &str) -> (r: Option<Vec<u8>>) {
        self.get_bytes(name.as_bytes())
    }
}

impl HeadersUtil for HeaderMap {
    fn has_header_value(&self, name: &str, value: &str) -> (r: bool) {
        match self.get_bytes(name.as_bytes()) {
            Some(v) => bytes_eq(v.as_slice(), value.as_bytes()),
            None => false,
        }
    }

    fn has_header_keyword(&self, name: &str, keyword: &str) -> (r: bool) {
        match self.get_bytes(name.as_bytes()) {
            Some(v) => contains_keyword(v.as_slice(), keyword.as_bytes()),
            None => false,
        }
    }
}

impl HeadersMutable for HeaderMap {
    fn set_header(&mut self, name: &str, value: &str) {
        self.set_bytes(name.as_bytes(), value.as_bytes());
    }

    fn remove_header(&mut self, name: &str) {
        self.remove_bytes(name.as_bytes());
    }
}

} // verus!
