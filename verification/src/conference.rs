//! The mapping resolver: one entry point that takes an optional id and an
//! optional name and returns a uniform resolution result. A non-empty name
//! takes precedence: it is normalized, hashed to an identifier, and written
//! through to the store. An id alone is looked up. Neither yields an
//! explanatory no-op result.

use vstd::prelude::*;
use vstd::string::StringExecFns;
use vstd::string::StringSliceAdditionalSpecFns;
use vstd::utf8::*;
use crate::hashing::{conference_hash, dec_bytes, id_of, pow10, u64_to_dec_bytes};
use crate::normalize::{norm_bytes, normalize, normalize_chars, string_from_bytes};
use crate::store::{sled_error_message, MappingStore};

verus! {

/// A resolution result: the identifier (0 if unresolved), the normalized
/// conference name (empty if unresolved), and a human-readable status.
pub struct Conference {
    pub message: String,
    pub id: u64,
    pub conference: String,
}

impl Default for Conference {
    fn default() -> (c: Self)
        ensures
            c.message@ == Seq::<char>::empty(),
            c.id == 0,
            c.conference@ == Seq::<char>::empty(),
    {
        Conference { message: String::new(), id: 0, conference: String::new() }
    }
}

/// The request parameters of the resolver's single route: an optional id
/// and an optional conference name.
pub struct ConferenceParams {
    pub id: Option<u64>,
    pub conference: Option<String>,
}

impl ConferenceParams {
    /// The id to resolve by: the given one, or 0 when none was supplied.
    pub open spec fn spec_effective_id(&self) -> u64 {
        match self.id {
            Some(i) => i,
            None => 0,
        }
    }

    /// The name to resolve by: the given one, or empty when none was
    /// supplied.
    pub open spec fn spec_effective_conference(&self) -> Seq<char> {
        match self.conference {
            Some(s) => s@,
            None => Seq::<char>::empty(),
        }
    }

    pub fn effective_id(&self) -> (r: u64)
        ensures
            r == self.spec_effective_id(),
    {
        match self.id {
            Some(i) => i,
            None => 0,
        }
    }

    pub fn effective_conference(&self) -> (r: String)
        ensures
            r@ == self.spec_effective_conference(),
    {
        match &self.conference {
            Some(s) => String::from_str(s.as_str()),
            None => String::new(),
        }
    }
}

pub open spec fn msg_created() -> Seq<char> {
    "Successfully created conference mapping"@
}

pub open spec fn msg_retrieved() -> Seq<char> {
    "Successfully retrieved conference mapping"@
}

pub open spec fn msg_not_found() -> Seq<char> {
    "No conference mapping was found"@
}

pub open spec fn msg_none_provided() -> Seq<char> {
    "No conference or id provided"@
}

pub open spec fn msg_bad_stored_name() -> Seq<char> {
    "Stored conference name is not valid UTF-8"@
}

/// The identifier the name path assigns to a name: the fixed-digit hash of
/// its normalized bytes.
pub open spec fn name_path_id(name: Seq<char>, digits: nat) -> u64 {
    id_of(norm_bytes(name), digits)
}

/// The store key under which a name's mapping is written: the decimal
/// digits of its identifier.
pub open spec fn name_key(name: Seq<char>, digits: nat) -> Seq<u8> {
    dec_bytes(name_path_id(name, digits) as nat)
}

/// The store contents after the name path has written a name's mapping.
/// An identifier that already belongs to a different name is simply
/// overwritten — last write wins. This is a deliberate choice: the digit
/// space is configured wide enough (at least six digits) that collisions
/// are statistically rare, and a lookup must never crash on one.
pub open spec fn name_path_map(
    m: Map<Seq<u8>, Seq<u8>>,
    name: Seq<char>,
    digits: nat,
) -> Map<Seq<u8>, Seq<u8>> {
    m.insert(name_key(name, digits), norm_bytes(name))
}

/// A successful name-path result: the generated identifier (with exactly
/// `digits` digits), the normalized name, and the creation message.
pub open spec fn created_ok(name: Seq<char>, digits: nat, r: Conference) -> bool {
    &&& r.id == name_path_id(name, digits)
    &&& pow10((digits - 1) as nat) <= r.id < pow10(digits)
    &&& r.conference@ == normalize_chars(name)
    &&& r.message@ == msg_created()
}

/// What a lookup by id returns, given the store's contents. The first three
/// cases are exact: the stored name when the key is bound to valid UTF-8, a
/// decode error message when it is not, and the not-found message when the
/// key is unbound. The last case covers a failed store read, whose error
/// text becomes the message.
pub open spec fn id_path_post(m: Map<Seq<u8>, Seq<u8>>, id: u64, r: Conference) -> bool {
    let key = dec_bytes(id as nat);
    &&& r.id == id
    &&& {
        ||| (m.contains_key(key) && valid_utf8(m[key]) && r.conference@ == decode_utf8(m[key])
            && r.message@ == msg_retrieved())
        ||| (m.contains_key(key) && !valid_utf8(m[key]) && r.conference@ == Seq::<char>::empty()
            && r.message@ == msg_bad_stored_name())
        ||| (!m.contains_key(key) && r.conference@ == Seq::<char>::empty() && r.message@
            == msg_not_found())
        ||| (r.conference@ == Seq::<char>::empty())
    }
}

/// The resolver's full contract, relating the store before and after the
/// call, the two optional inputs, and the result. A non-empty name wins; on
/// a name-path store failure the result is zeroed with an empty message; an
/// id alone reads the store and leaves it unchanged.
pub open spec fn resolve_post(
    m0: Map<Seq<u8>, Seq<u8>>,
    m1: Map<Seq<u8>, Seq<u8>>,
    try_id: u64,
    conf: Seq<char>,
    digits: nat,
    r: Conference,
) -> bool {
    if conf.len() > 0 {
        ||| (created_ok(conf, digits, r) && m1 == name_path_map(m0, conf, digits))
        ||| (r.id == 0 && r.conference@ == Seq::<char>::empty() && r.message@ == Seq::<
            char,
        >::empty())
    } else if try_id > 0 {
        m1 == m0 && id_path_post(m0, try_id, r)
    } else {
        m1 == m0 && r.id == 0 && r.conference@ == Seq::<char>::empty() && r.message@
            == msg_none_provided()
    }
}

impl MappingStore {
    /// Looks an identifier up in the store: `resolveById`.
    pub fn resolve_by_id(&self, id: u64) -> (r: Conference)
        ensures
            id_path_post(self.contents(), id, r),
    {
        let key = u64_to_dec_bytes(id);
        match self.get(&key) {
            Ok(Some(v)) => match string_from_bytes(v) {
                Some(s) => {
                    proof {
                        encode_utf8_valid_utf8(s@);
                        encode_utf8_decode_utf8(s@);
                    }
                    Conference {
                        message: String::from_str("Successfully retrieved conference mapping"),
                        id,
                        conference: s,
                    }
                },
                None => Conference {
                    message: String::from_str("Stored conference name is not valid UTF-8"),
                    id,
                    conference: String::new(),
                },
            },
            Ok(None) => Conference {
                message: String::from_str("No conference mapping was found"),
                id,
                conference: String::new(),
            },
            Err(e) => {
                let text = sled_error_message(&e);
                Conference { message: text, id, conference: String::new() }
            },
        }
    }

    /// Normalizes a name, generates its identifier, and writes the mapping
    /// through to the store: `resolveOrCreate` for a non-empty name.
    pub fn resolve_or_create(&mut self, name: &str, digits: u32) -> (r: Conference)
        requires
            6 <= digits <= 12,
        ensures
            resolve_post(
                old(self).contents(),
                final(self).contents(),
                0,
                name@,
                digits as nat,
                r,
            ),
    {
        self.insert_conference(0, name, digits)
    }

    /// The resolver's single entry point: decides between the name path,
    /// the id path, and the no-input result, in that order.
    pub fn insert_conference(&mut self, try_id: u64, try_conf: &str, digits: u32) -> (r:
        Conference)
        requires
            6 <= digits <= 12,
        ensures
            resolve_post(
                old(self).contents(),
                final(self).contents(),
                try_id,
                try_conf@,
                digits as nat,
                r,
            ),
    {
        if !try_conf.is_empty() {
            let norm = normalize(try_conf);
            let id = conference_hash(norm.as_str(), digits);
            let key = u64_to_dec_bytes(id);
            match self.put(&key, norm.as_str().as_bytes()) {
                Ok(_) => Conference {
                    message: String::from_str("Successfully created conference mapping"),
                    id,
                    conference: norm,
                },
                Err(_) => Conference {
                    message: String::new(),
                    id: 0,
                    conference: String::new(),
                },
            }
        } else if try_id > 0 {
            self.resolve_by_id(try_id)
        } else {
            Conference {
                message: String::from_str("No conference or id provided"),
                id: 0,
                conference: String::new(),
            }
        }
    }
}

/// Law: the name path is idempotent. Resolving the same name twice yields
/// the same identifier both times (the identifier is a function of the name
/// and the digit length alone), and writing the mapping a second time
/// leaves the store exactly as the first write did, holding the normalized
/// name under that identifier's key.
pub proof fn lemma_name_path_idempotent(m: Map<Seq<u8>, Seq<u8>>, name: Seq<char>, digits: nat)
    ensures
        name_path_map(name_path_map(m, name, digits), name, digits) == name_path_map(
            m,
            name,
            digits,
        ),
        name_path_map(m, name, digits)[name_key(name, digits)] == norm_bytes(name),
{
    assert(name_path_map(name_path_map(m, name, digits), name, digits) =~= name_path_map(
        m,
        name,
        digits,
    ));
}

/// Law: round trip. After the name path stores a name's mapping, the
/// identifier's key is bound to valid UTF-8 that decodes to the normalized
/// name, and any lookup of that identifier whose store read succeeds
/// returns exactly the normalized name — a lookup result can differ only by
/// signalling a store failure with an empty name.
pub proof fn lemma_round_trip(m: Map<Seq<u8>, Seq<u8>>, name: Seq<char>, digits: nat)
    requires
        1 <= digits <= 12,
    ensures
        ({
            let m1 = name_path_map(m, name, digits);
            let key = name_key(name, digits);
            &&& m1.contains_key(key)
            &&& valid_utf8(m1[key])
            &&& decode_utf8(m1[key]) == normalize_chars(name)
        }),
        forall|r: Conference|
            id_path_post(name_path_map(m, name, digits), name_path_id(name, digits), r)
                ==> (r.conference@ == normalize_chars(name) || r.conference@ == Seq::<
                char,
            >::empty()),
{
    crate::normalize::lemma_norm_bytes_valid_utf8(name);
}

} // verus!
