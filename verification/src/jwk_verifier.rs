//! The verifier: the key set in force, the audience and issuer that every
//! token must carry, and the verification of one token against them.

use crate::jwk::Jwk;
use crate::jwt::{
    algorithm_named, decode_claims, decode_key_id, header_algorithm, header_key_id,
    integer_member, integer_members, is_algorithm_name, is_rsa_algorithm_name, payload_members,
    signature_is_valid, text_member, text_members,
};
use vstd::hash_map::StringHashMap;
use vstd::prelude::*;

verus! {

/// The payload of a token that passed verification.
#[derive(Debug, PartialEq)]
pub struct Claims {
    pub aud: String,
    pub exp: i64,
    pub iss: String,
    pub sub: String,
    pub iat: i64,
}

/// The payload of a token as plain values.
pub struct ClaimsView {
    pub aud: Seq<char>,
    pub exp: i64,
    pub iss: Seq<char>,
    pub sub: Seq<char>,
    pub iat: i64,
}

impl View for Claims {
    type V = ClaimsView;

    open spec fn view(&self) -> ClaimsView {
        ClaimsView {
            aud: self.aud@,
            exp: self.exp,
            iss: self.iss@,
            sub: self.sub@,
            iat: self.iat,
        }
    }
}

/// Why a token was turned down once its key was found. Callers of `verify`
/// never see which.
#[derive(Debug, PartialEq, Eq, Clone, Copy)]
pub enum VerificationError {
    /// The signature, the audience, the issuer, the expiry or the shape of
    /// the claims is not as it must be.
    InvalidSignature,
    /// The key names an algorithm that is not known.
    UnknownKeyAlgorithm,
}

/// What every token must carry; fixed when the verifier is made.
#[derive(Debug, PartialEq)]
pub struct JwkConfig {
    pub audience: String,
    pub issuer: String,
}

/// The key set in force, with the audience and issuer to check against.
/// Every key of the key set stands under its own id.
pub struct JwkVerifier {
    keys: StringHashMap<Jwk>,
    config: JwkConfig,
}

/// The key set that a list of keys makes: each key under its id, and under
/// an id that several keys share, the last of them.
pub open spec fn key_map(keys: Seq<Jwk>) -> Map<Seq<char>, Jwk>
    decreases keys.len(),
{
    if keys.len() == 0 {
        Map::empty()
    } else {
        key_map(keys.drop_last()).insert(keys.last().kid@, keys.last())
    }
}

/// Whether every key of a key set stands under its own id.
pub open spec fn keyed_by_id(keys: Map<Seq<char>, Jwk>) -> bool {
    forall|id: Seq<char>| keys.contains_key(id) ==> (#[trigger] keys[id]).kid@ == id
}

/// In the key set of a list of keys, every key stands under its own id.
pub proof fn lemma_key_map_keyed_by_id(keys: Seq<Jwk>)
    ensures
        keyed_by_id(key_map(keys)),
    decreases keys.len(),
{
    if keys.len() > 0 {
        lemma_key_map_keyed_by_id(keys.drop_last());
    }
}

/// Builds the key set of a list of keys.
pub fn keys_to_map(keys: Vec<Jwk>) -> (map: StringHashMap<Jwk>)
    ensures
        map@ == key_map(keys@),
        keyed_by_id(map@),
{
    proof {
        lemma_key_map_keyed_by_id(keys@);
    }
    let mut keys_as_map: StringHashMap<Jwk> = StringHashMap::new();
    let ghost all = keys@;
    for key in it: keys.into_iter()
        invariant
            it.seq() == all,
            keys_as_map@ == key_map(all.take(it.index())),
    {
        proof {
            let seen = all.take(it.index() + 1);
            assert(seen.drop_last() =~= all.take(it.index()));
            assert(seen.last() == key);
        }
        keys_as_map.insert(key.kid.clone(), key);
    }
    assert(all.take(all.len() as int) =~= all);
    keys_as_map
}

/// The key that the header of `token` names among `keys`.
pub open spec fn named_key(keys: Map<Seq<char>, Jwk>, token: Seq<char>) -> Option<Jwk> {
    match header_key_id(token) {
        Some(id) => if keys.contains_key(id) {
            Some(keys[id])
        } else {
            None
        },
        None => None,
    }
}

/// The claims among the members of a JSON object: all five, each of its
/// type.
pub open spec fn claims_among(
    text: Map<Seq<char>, Seq<char>>,
    integers: Map<Seq<char>, i64>,
) -> Option<ClaimsView> {
    if text.contains_key("aud"@) && integers.contains_key("exp"@) && text.contains_key("iss"@)
        && text.contains_key("sub"@) && integers.contains_key("iat"@) {
        Some(
            ClaimsView {
                aud: text["aud"@],
                exp: integers["exp"@],
                iss: text["iss"@],
                sub: text["sub"@],
                iat: integers["iat"@],
            },
        )
    } else {
        None
    }
}

/// The claims that decoded JSON holds.
pub open spec fn claims_in(decoded: serde_json::Value) -> Option<ClaimsView> {
    claims_among(text_members(decoded), integer_members(decoded))
}

/// The claims that the payload of a token holds.
pub open spec fn claims_of(token: Seq<char>) -> Option<ClaimsView> {
    claims_among(payload_members(token).0, payload_members(token).1)
}

/// What is known of a token once it was decoded against `key` for the given
/// audience and issuer and gave `claims`: the key names an algorithm that
/// signs with an RSA key, the token's header declares that same algorithm,
/// the signature is valid under the key by it, and the claims are those of
/// the token's payload, whole, with that audience and that issuer.
pub open spec fn passes(
    token: Seq<char>,
    key: Jwk,
    audience: Seq<char>,
    issuer: Seq<char>,
    claims: ClaimsView,
) -> bool {
    &&& is_rsa_algorithm_name(key.alg@)
    &&& header_algorithm(token) == Some(key.alg@)
    &&& signature_is_valid(token, key.n@, key.e@)
    &&& claims_of(token) == Some(claims)
    &&& claims.aud == audience
    &&& claims.iss == issuer
}

/// What the decoding of a token amounts to: its claims, where it was decoded
/// and the claims are whole.
pub open spec fn decoded_claims(decoded: Option<serde_json::Value>) -> Option<ClaimsView> {
    match decoded {
        Some(value) => claims_in(value),
        None => None,
    }
}

/// Reads the five claims from decoded JSON.
pub fn read_claims(decoded: &serde_json::Value) -> (claims: Option<Claims>)
    ensures
        match claims {
            Some(found) => claims_in(*decoded) == Some(found@),
            None => claims_in(*decoded) is None,
        },
{
    let aud = match text_member(decoded, "aud") {
        Some(aud) => aud,
        None => {
            return None;
        },
    };
    let exp = match integer_member(decoded, "exp") {
        Some(exp) => exp,
        None => {
            return None;
        },
    };
    let iss = match text_member(decoded, "iss") {
        Some(iss) => iss,
        None => {
            return None;
        },
    };
    let sub = match text_member(decoded, "sub") {
        Some(sub) => sub,
        None => {
            return None;
        },
    };
    let iat = match integer_member(decoded, "iat") {
        Some(iat) => iat,
        None => {
            return None;
        },
    };
    Some(Claims { aud, exp, iss, sub, iat })
}

/// Turns what the decoding of a token gave into the claims of the token, or
/// into the one error that stands for every way in which a token fails
/// against its key.
pub fn accept(decoded: Option<serde_json::Value>) -> (r: Result<Claims, VerificationError>)
    ensures
        match r {
            Ok(claims) => decoded_claims(decoded) == Some(claims@),
            Err(error) => error == VerificationError::InvalidSignature && decoded_claims(decoded)
                is None,
        },
{
    match decoded {
        Some(value) => match read_claims(&value) {
            Some(claims) => Ok(claims),
            None => Err(VerificationError::InvalidSignature),
        },
        None => Err(VerificationError::InvalidSignature),
    }
}

impl JwkVerifier {
    #[verifier::type_invariant]
    spec fn well_formed(self) -> bool {
        keyed_by_id(self.keys@)
    }

    /// The key set in force: each key under its id.
    pub closed spec fn key_set(&self) -> Map<Seq<char>, Jwk> {
        self.keys@
    }

    /// The audience and issuer that every token must carry.
    pub closed spec fn config(&self) -> JwkConfig {
        self.config
    }

    /// A verifier with the key set of `keys`, for the given audience and
    /// issuer.
    pub fn new(keys: Vec<Jwk>, audience: String, issuer: String) -> (verifier: JwkVerifier)
        ensures
            verifier.key_set() == key_map(keys@),
            keyed_by_id(verifier.key_set()),
            verifier.config().audience == audience,
            verifier.config().issuer == issuer,
    {
        JwkVerifier { keys: keys_to_map(keys), config: JwkConfig { audience, issuer } }
    }

    /// The key with the id `key_id`, where the key set holds one.
    pub fn get_key(&self, key_id: &str) -> (key: Option<&Jwk>)
        ensures
            keyed_by_id(self.key_set()),
            match key {
                Some(found) => self.key_set().contains_key(key_id@) && *found
                    == self.key_set()[key_id@] && found.kid@ == key_id@,
                None => !self.key_set().contains_key(key_id@),
            },
    {
        proof {
            use_type_invariant(self);
        }
        self.keys.get(key_id)
    }

    /// The number of keys in the key set.
    pub fn key_count(&self) -> (count: usize)
        ensures
            count == self.key_set().len(),
    {
        self.keys.len()
    }

    /// The audience and issuer that every token must carry.
    pub fn get_config(&self) -> (config: Option<&JwkConfig>)
        ensures
            config == Some(&self.config()),
    {
        Some(&self.config)
    }

    /// What is known of a token to which this verifier gave `claims`: its
    /// header names a key of the key set, and against that key it passes.
    pub open spec fn admits(&self, token: Seq<char>, claims: ClaimsView) -> bool {
        &&& named_key(self.key_set(), token) matches Some(key)
        &&& header_key_id(token) == Some(key.kid@)
        &&& passes(token, key, self.config().audience@, self.config().issuer@, claims)
    }

    /// Decodes `token` against `key`, by the key's algorithm and no other:
    /// the algorithm must be known, and the token must pass the decoding with
    /// this verifier's audience and issuer and hold whole claims. A token
    /// whose header declares another algorithm than the key's, and a key
    /// whose algorithm signs with no RSA key, give an error.
    pub fn decode_token_with_key(&self, key: &Jwk, token: &str) -> (r: Result<
        Claims,
        VerificationError,
    >)
        ensures
            !is_algorithm_name(key.alg@) ==> r == Err::<Claims, VerificationError>(
                VerificationError::UnknownKeyAlgorithm,
            ),
            is_algorithm_name(key.alg@) ==> match r {
                Ok(claims) => passes(
                    token@,
                    *key,
                    self.config().audience@,
                    self.config().issuer@,
                    claims@,
                ),
                Err(error) => error == VerificationError::InvalidSignature,
            },
            is_algorithm_name(key.alg@) && (!is_rsa_algorithm_name(key.alg@) || header_algorithm(
                token@,
            ) != Some(key.alg@)) ==> r == Err::<Claims, VerificationError>(
                VerificationError::InvalidSignature,
            ),
    {
        let algorithm = match algorithm_named(key.alg.as_str()) {
            Some(algorithm) => algorithm,
            None => {
                return Err(VerificationError::UnknownKeyAlgorithm);
            },
        };
        let decoded = decode_claims(
            token,
            key.n.as_str(),
            key.e.as_str(),
            algorithm,
            self.config.audience.as_str(),
            self.config.issuer.as_str(),
        );
        accept(decoded)
    }

    /// Replaces the key set by that of `keys`, whole; audience and issuer
    /// stay.
    pub fn set_keys(&mut self, keys: Vec<Jwk>)
        ensures
            final(self).key_set() == key_map(keys@),
            keyed_by_id(final(self).key_set()),
            final(self).config() == old(self).config(),
    {
        self.keys = keys_to_map(keys);
    }

    /// Verifies `token`: finds the key that its header names, and decodes the
    /// token against that key, by that key's algorithm. A token whose header
    /// cannot be read or names no key of the key set, and one whose key names
    /// no known algorithm, is turned down without being decoded; one whose
    /// key names an algorithm that signs with no RSA key, or another
    /// algorithm than the header declares, is turned down by the decoding.
    /// Whatever is turned down gives `None`, with no word on why. Claims come
    /// back only for a token that this verifier admits.
    pub fn verify(&self, token: &String) -> (claims: Option<Claims>)
        ensures
            header_key_id(token@) is None ==> claims is None,
            header_key_id(token@) matches Some(id) && !self.key_set().contains_key(id)
                ==> claims is None,
            named_key(self.key_set(), token@) matches Some(key) && !is_algorithm_name(key.alg@)
                ==> claims is None,
            named_key(self.key_set(), token@) matches Some(key) && !is_rsa_algorithm_name(
                key.alg@,
            ) ==> claims is None,
            named_key(self.key_set(), token@) matches Some(key) && header_algorithm(token@)
                != Some(key.alg@) ==> claims is None,
            claims matches Some(found) ==> self.admits(token@, found@),
    {
        let token_kid = match decode_key_id(token.as_str()) {
            Some(id) => id,
            None => {
                return None;
            },
        };
        let jwk_key = match self.get_key(token_kid.as_str()) {
            Some(key) => key,
            None => {
                return None;
            },
        };
        match self.decode_token_with_key(jwk_key, token.as_str()) {
            Ok(claims) => Some(claims),
            Err(_) => None,
        }
    }
}

/// A key with no later key of the same id in the list is the one that the
/// key set holds under that id: the last one written wins.
pub proof fn lemma_key_map_holds(keys: Seq<Jwk>, at: int)
    requires
        0 <= at < keys.len(),
        forall|later: int| at < later < keys.len() ==> keys[later].kid@ != keys[at].kid@,
    ensures
        key_map(keys).contains_key(keys[at].kid@),
        key_map(keys)[keys[at].kid@] == keys[at],
    decreases keys.len(),
{
    if at < keys.len() - 1 {
        let front = keys.drop_last();
        assert(front[at] == keys[at]);
        assert forall|later: int| at < later < front.len() implies front[later].kid@
            != front[at].kid@ by {
            assert(front[later] == keys[later]);
        }
        lemma_key_map_holds(front, at);
        assert(keys.last().kid@ != keys[at].kid@);
    }
}

/// The key set holds an id only where a key of the list has it, and then
/// holds a key of the list under it.
pub proof fn lemma_key_map_only(keys: Seq<Jwk>, id: Seq<char>)
    requires
        key_map(keys).contains_key(id),
    ensures
        exists|at: int| 0 <= at < keys.len() && keys[at].kid@ == id && key_map(keys)[id] == keys[at],
    decreases keys.len(),
{
    if keys.len() > 0 {
        if keys.last().kid@ == id {
            assert(keys[keys.len() - 1].kid@ == id);
        } else {
            let front = keys.drop_last();
            lemma_key_map_only(front, id);
            let at = choose|at: int|
                0 <= at < front.len() && front[at].kid@ == id && key_map(front)[id] == front[at];
            assert(keys[at] == front[at]);
        }
    }
}

/// A token whose header names a key id that the key set lacks is admitted
/// with no claims, however well it is signed and whatever it holds.
pub proof fn lemma_unknown_key_is_not_admitted(
    verifier: JwkVerifier,
    token: Seq<char>,
    claims: ClaimsView,
)
    requires
        header_key_id(token) matches Some(id) ==> !verifier.key_set().contains_key(id),
    ensures
        !verifier.admits(token, claims),
{
}

/// Once the keys of `installed` are the key set, a token whose header names
/// a key of the list is matched with that key, the last of its id, whatever
/// the key set was before: it is admitted with the claims with which it
/// passes against that key.
pub proof fn lemma_installed_key_is_named(
    verifier: JwkVerifier,
    installed: Seq<Jwk>,
    token: Seq<char>,
    at: int,
    claims: ClaimsView,
)
    requires
        verifier.key_set() == key_map(installed),
        0 <= at < installed.len(),
        header_key_id(token) == Some(installed[at].kid@),
        forall|later: int|
            at < later < installed.len() ==> installed[later].kid@ != installed[at].kid@,
    ensures
        named_key(verifier.key_set(), token) == Some(installed[at]),
        verifier.admits(token, claims) <==> passes(
            token,
            installed[at],
            verifier.config().audience@,
            verifier.config().issuer@,
            claims,
        ),
{
    lemma_key_map_holds(installed, at);
}

/// Once the keys of `installed` are the key set, a token whose header names
/// an id that no key of the list has is matched with no key, whatever the key
/// set was before, and is admitted with no claims.
pub proof fn lemma_other_keys_are_gone(
    verifier: JwkVerifier,
    installed: Seq<Jwk>,
    token: Seq<char>,
    claims: ClaimsView,
)
    requires
        verifier.key_set() == key_map(installed),
        forall|i: int|
            0 <= i < installed.len() ==> Some(#[trigger] installed[i].kid@) != header_key_id(
                token,
            ),
    ensures
        named_key(verifier.key_set(), token) is None,
        !verifier.admits(token, claims),
{
    if let Some(id) = header_key_id(token) {
        if key_map(installed).contains_key(id) {
            lemma_key_map_only(installed, id);
        }
    }
}

/// A token is admitted with one set of claims at most, whenever it is
/// verified and whatever key set is then in force: two verifications of one
/// token that both give claims give the same claims.
pub proof fn lemma_admitted_claims_agree(
    first: JwkVerifier,
    second: JwkVerifier,
    token: Seq<char>,
    once: ClaimsView,
    again: ClaimsView,
)
    requires
        first.admits(token, once),
        second.admits(token, again),
    ensures
        once == again,
{
}

} // verus!
