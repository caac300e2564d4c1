//! Plain values that cross the boundary between the core and its collaborators:
//! socket addresses, HTTP requests and responses, and the I/O events and actions
//! built from them.

use vstd::prelude::*;

verus! {

/// A UDP endpoint: an IPv4 or IPv6 address in host order, and a port.
#[derive(Clone, Copy, Debug, PartialEq, Eq, Hash, Structural)]
#[allow(inconsistent_fields)]
pub enum NetAddr {
    V4 { ip: u32, port: u16 },
    V6 { ip: u128, port: u16 },
}

/// HTTP header fields, each name at most once, kept in the order in which
/// the names were first inserted so that they can be walked by position.
#[derive(Debug)]
pub struct Headers {
    entries: Vec<(String, String)>,
}

/// Whether no two entries of `entries` carry the same name.
pub open spec fn distinct_names(entries: Seq<(String, String)>) -> bool {
    forall|i: int, j: int|
        0 <= i < entries.len() && 0 <= j < entries.len() && i != j ==> (#[trigger] entries[i]).0@
            != (#[trigger] entries[j]).0@
}

/// Whether some entry of `entries` carries the name `name`.
pub open spec fn has_name(entries: Seq<(String, String)>, name: Seq<char>) -> bool {
    exists|i: int| 0 <= i < entries.len() && (#[trigger] entries[i]).0@ == name
}

/// The position of an entry named `name`.
pub open spec fn index_of_name(entries: Seq<(String, String)>, name: Seq<char>) -> int {
    choose|i: int| 0 <= i < entries.len() && (#[trigger] entries[i]).0@ == name
}

impl View for Headers {
    type V = Map<Seq<char>, Seq<char>>;

    closed spec fn view(&self) -> Map<Seq<char>, Seq<char>> {
        Map::new(
            |name: Seq<char>| has_name(self.entries@, name),
            |name: Seq<char>| self.entries@[index_of_name(self.entries@, name)].1@,
        )
    }
}

impl Headers {
    #[verifier::type_invariant]
    spec fn inv(&self) -> bool {
        distinct_names(self.entries@)
    }

    /// The fields in the order in which their names were first inserted.
    pub closed spec fn fields(&self) -> Seq<(String, String)> {
        self.entries@
    }

    /// No fields.
    pub fn new() -> (headers: Headers)
        ensures
            headers@ == Map::<Seq<char>, Seq<char>>::empty(),
            headers.fields().len() == 0,
    {
        let headers = Headers { entries: Vec::new() };
        assert(headers@ =~= Map::<Seq<char>, Seq<char>>::empty());
        headers
    }

    /// The position of the field named `name`, if there is one.
    fn position(&self, name: &String) -> (found: Option<usize>)
        ensures
            match found {
                Some(i) => i < self.entries@.len() && self.entries@[i as int].0@ == name@,
                None => !has_name(self.entries@, name@),
            },
    {
        let mut i: usize = 0;
        while i < self.entries.len()
            invariant
                i <= self.entries@.len(),
                forall|j: int| 0 <= j < i ==> (#[trigger] self.entries@[j]).0@ != name@,
            decreases self.entries@.len() - i,
        {
            if self.entries[i].0 == *name {
                return Some(i);
            }
            i = i + 1;
        }
        None
    }

    /// The value of the field named `name`, if there is one.
    pub fn get(&self, name: &String) -> (value: Option<&String>)
        ensures
            match value {
                Some(v) => self@.contains_key(name@) && v@ == self@[name@],
                None => !self@.contains_key(name@),
            },
    {
        proof {
            use_type_invariant(self);
        }
        match self.position(name) {
            Some(i) => {
                assert(has_name(self.entries@, name@));
                Some(&self.entries[i].1)
            },
            None => None,
        }
    }

    /// Sets the field named `name` to `value`, replacing an earlier value.
    pub fn insert(&mut self, name: String, value: String)
        ensures
            final(self)@ == old(self)@.insert(name@, value@),
    {
        proof {
            use_type_invariant(&*self);
        }
        let found = self.position(&name);
        let mut taken = Headers { entries: Vec::new() };
        core::mem::swap(self, &mut taken);
        let mut entries = taken.entries;
        let ghost before = entries@;
        match found {
            Some(i) => {
                entries[i] = (name, value);
            },
            None => {
                entries.push((name, value));
            },
        }
        assert(distinct_names(entries@));
        *self = Headers { entries };
        assert(self@ =~= old(self)@.insert(name@, value@)) by {
            assert forall|k: Seq<char>| #[trigger]
                has_name(self.entries@, k) <==> (k == name@ || has_name(before, k)) by {
                if has_name(self.entries@, k) {
                    let i = index_of_name(self.entries@, k);
                    if k != name@ {
                        assert(before[i].0@ == k);
                    }
                }
                if has_name(before, k) {
                    let i = index_of_name(before, k);
                    assert(self.entries@[i].0@ == k);
                }
                if k == name@ {
                    match found {
                        Some(i) => {
                            assert(self.entries@[i as int].0@ == k);
                        },
                        None => {
                            assert(self.entries@[before.len() as int].0@ == k);
                        },
                    }
                }
            }
        }
    }

    /// The number of fields.
    pub fn len(&self) -> (n: usize)
        ensures
            n == self.fields().len(),
    {
        self.entries.len()
    }

    /// The name and value of the field at position `i`.
    pub fn entry(&self, i: usize) -> (field: (&String, &String))
        requires
            i < self.fields().len(),
        ensures
            *field.0 == self.fields()[i as int].0,
            *field.1 == self.fields()[i as int].1,
    {
        (&self.entries[i].0, &self.entries[i].1)
    }
}

/// One inbound HTTP request, as the front end hands it over.
#[derive(Debug)]
pub struct HttpRequest {
    pub req_id: u64,
    pub method: String,
    pub path: String,
    pub headers: Headers,
    pub body: Vec<u8>,
}

/// The response to the request with the same `req_id`.
#[derive(Debug)]
pub struct HttpResponse {
    pub req_id: u64,
    pub status: u16,
    pub headers: Headers,
    pub body: Vec<u8>,
}

/// What the outside world delivers to the core.
pub enum IoEvent<'a> {
    HttpRequest(HttpRequest),
    UdpSocketRecv { from: NetAddr, to: NetAddr, buf: &'a [u8] },
}

/// What the core asks the outside world to do.
pub enum IoAction {
    HttpResponse(HttpResponse),
    UdpSocketSend { from: NetAddr, to: NetAddr, buf: Vec<u8> },
}

} // verus!
