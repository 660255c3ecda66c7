//! Who this node is, by the keys it holds, and RSA-SHA256 signatures through OpenSSL.
use vstd::prelude::*;
use vstd::utf8::encode_utf8;
use crate::text::{trim, trim_str};

verus! {

/// The position of the last `'.'` in `s`, or -1 when there is none.
pub open spec fn last_dot(s: Seq<char>) -> int
    decreases s.len(),
{
    if s.len() == 0 {
        -1
    } else if s.last() == '.' {
        s.len() - 1
    } else {
        last_dot(s.drop_last())
    }
}

/// The stem and extension of a file name, as `Path::file_stem` and
/// `Path::extension` split it: at the last `'.'`, where that dot is not the first
/// character and the name is not `".."`. Other names have no extension.
pub open spec fn stem_and_extension(name: Seq<char>) -> Option<(Seq<char>, Seq<char>)> {
    let k = last_dot(name);
    if name == ".."@ || k <= 0 {
        None
    } else {
        Some((name.subrange(0, k), name.subrange(k + 1, name.len() as int)))
    }
}

/// The kind of node that a key file's stem stands for.
pub open spec fn key_kind(stem: Seq<char>) -> Seq<char> {
    if stem == "usb"@ {
        "usb"@
    } else if stem == "drone"@ {
        "drone"@
    } else if stem == "controller"@ {
        "controller"@
    } else if stem == "usb_private_key"@ {
        "user"@
    } else {
        "unknown"@
    }
}

/// The node's kind by the key files in its key directory, in listing order: the
/// kind of the last `.pem` file; empty when there is none.
pub open spec fn node_type_of(names: Seq<Seq<char>>) -> Seq<char>
    decreases names.len(),
{
    if names.len() == 0 {
        Seq::empty()
    } else {
        match stem_and_extension(names.last()) {
            Some((stem, ext)) => if ext == "pem"@ {
                key_kind(stem)
            } else {
                node_type_of(names.drop_last())
            },
            None => node_type_of(names.drop_last()),
        }
    }
}

/// Law: each known key-file stem names its own kind (`usb`, `drone`, `controller`),
/// `usb_private_key` names a user, and exactly the other stems give `unknown`.
pub proof fn law_key_kinds(stem: Seq<char>)
    ensures
        (stem == "usb"@ || stem == "drone"@ || stem == "controller"@) ==> key_kind(stem) == stem,
        stem == "usb_private_key"@ ==> key_kind(stem) == "user"@,
        key_kind(stem) == "unknown"@ <==> (stem != "usb"@ && stem != "drone"@ && stem != "controller"@
            && stem != "usb_private_key"@),
{
    reveal_strlit("usb");
    reveal_strlit("drone");
    reveal_strlit("controller");
    reveal_strlit("usb_private_key");
    reveal_strlit("user");
    reveal_strlit("unknown");
    assert("unknown"@.len() != "usb"@.len());
    assert("unknown"@.len() != "drone"@.len());
    assert("unknown"@.len() != "controller"@.len());
    assert("unknown"@.len() != "user"@.len());
}

proof fn lemma_last_dot_past_dotless(s: Seq<char>, t: Seq<char>)
    requires
        forall|i: int| 0 <= i < t.len() ==> t[i] != '.',
    ensures
        last_dot(s + t) == last_dot(s),
    decreases t.len(),
{
    if t.len() == 0 {
        assert(s + t =~= s);
    } else {
        assert((s + t).last() == t.last());
        assert((s + t).drop_last() =~= s + t.drop_last());
        lemma_last_dot_past_dotless(s, t.drop_last());
    }
}

/// Law: the last `.pem` file decides the node's kind: after any listing, a file
/// `{stem}.pem` (with a non-empty stem) gives the kind of its stem.
pub proof fn law_last_pem_file_decides(names: Seq<Seq<char>>, stem: Seq<char>)
    requires
        stem.len() > 0,
    ensures
        node_type_of(names.push(stem + ".pem"@)) == key_kind(stem),
{
    reveal_strlit(".pem");
    reveal_strlit("pem");
    reveal_strlit("..");
    let n = stem + ".pem"@;
    let d = stem.push('.');
    let p = seq!['p', 'e', 'm'];
    assert(".pem"@ =~= seq!['.', 'p', 'e', 'm']);
    assert("pem"@ =~= p);
    assert(n =~= d + p);
    lemma_last_dot_past_dotless(d, p);
    assert(last_dot(d) == stem.len());
    assert(n != ".."@) by {
        assert(n.len() != ".."@.len());
    }
    assert(n.subrange(0, stem.len() as int) =~= stem);
    assert(n.subrange(stem.len() + 1int, n.len() as int) =~= p);
    assert(names.push(n).last() == n);
}

fn find_last_dot(name: &str) -> (res: Option<usize>)
    ensures
        match res {
            Some(k) => k as int == last_dot(name@) && k < name@.len(),
            None => last_dot(name@) == -1,
        },
{
    let n = name.unicode_len();
    let mut j: usize = n;
    assert(name@.subrange(0, n as int) =~= name@);
    while j > 0 && name.get_char(j - 1) != '.'
        invariant
            j <= n,
            n == name@.len(),
            last_dot(name@) == last_dot(name@.subrange(0, j as int)),
        decreases j,
    {
        assert(name@.subrange(0, j as int).drop_last() =~= name@.subrange(0, j - 1));
        j = j - 1;
    }
    if j == 0 {
        None
    } else {
        Some(j - 1)
    }
}

/// The stem and extension of a file name (see `stem_and_extension`).
pub fn split_file_name(name: &str) -> (res: Option<(String, String)>)
    ensures
        match res {
            Some((stem, ext)) => stem_and_extension(name@) == Some((stem@, ext@)),
            None => stem_and_extension(name@) is None,
        },
{
    proof {
        reveal_strlit("..");
    }
    let n = name.unicode_len();
    if n == 2 && name.get_char(0) == '.' && name.get_char(1) == '.' {
        assert(name@ =~= ".."@);
        return None;
    }
    assert(name@ != ".."@) by {
        if name@ == ".."@ {
            assert(name@[0] == '.' && name@[1] == '.');
        }
    }
    match find_last_dot(name) {
        None => None,
        Some(k) => {
            if k == 0 {
                None
            } else {
                Some((String::from_str(name.substring_char(0, k)), String::from_str(name.substring_char(k + 1, n))))
            }
        },
    }
}

fn kind_for_stem(stem: &String) -> (res: String)
    ensures
        res@ == key_kind(stem@),
{
    if *stem == String::from_str("usb") {
        String::from_str("usb")
    } else if *stem == String::from_str("drone") {
        String::from_str("drone")
    } else if *stem == String::from_str("controller") {
        String::from_str("controller")
    } else if *stem == String::from_str("usb_private_key") {
        String::from_str("user")
    } else {
        String::from_str("unknown")
    }
}

/// The node's kind by the names of the files in its key directory (listing order):
/// `usb.pem` gives `usb`, `drone.pem` `drone`, `controller.pem` `controller`,
/// `usb_private_key.pem` `user`, any other `.pem` file `unknown`; the last `.pem` file
/// decides, and without one the kind is empty.
pub fn get_my_node_type(file_names: &Vec<String>) -> (res: String)
    ensures
        res@ == node_type_of(file_names@.map_values(|s: String| s@)),
{
    let ghost names = file_names@.map_values(|s: String| s@);
    let mut key = String::new();
    let n = file_names.len();
    for i in 0..n
        invariant
            n == file_names@.len(),
            names == file_names@.map_values(|s: String| s@),
            key@ == node_type_of(names.take(i as int)),
    {
        proof {
            assert(names.take(i + 1).drop_last() =~= names.take(i as int));
        }
        match split_file_name(file_names[i].as_str()) {
            Some((stem, ext)) => {
                if ext == String::from_str("pem") {
                    key = kind_for_stem(&stem);
                }
            },
            None => {},
        }
    }
    proof {
        assert(names.take(n as int) =~= names);
    }
    key
}

/// Where the public key of kind `option` lies: `./src/instance/key/{option, trimmed}.pem`.
pub fn public_key_path(option: &str) -> (res: String)
    ensures
        res@ == "./src/instance/key/"@ + trim(option@) + ".pem"@,
{
    let mut s = String::from_str("./src/instance/key/");
    s.append(trim_str(option).as_str());
    s.append(".pem");
    s
}

/// Where the private key of kind `option` lies: `./src/instance/{option}_private_key.pem`.
pub fn private_key_path(option: &str) -> (res: String)
    ensures
        res@ == "./src/instance/"@ + option@ + "_private_key.pem"@,
{
    let mut s = String::from_str("./src/instance/");
    s.append(option);
    s.append("_private_key.pem");
    s
}

/// The step of an RSA-SHA256 operation at which OpenSSL reported an error.
#[derive(Debug, Clone, Copy, PartialEq, Eq, Structural)]
pub enum KeyStep {
    /// The PEM text did not parse as an RSA key.
    ParseKey,
    /// The RSA key could not become an `EVP_PKEY`.
    ConvertKey,
    /// The signing or verifying context could not be made.
    CreateContext,
    /// The data could not be fed into the context.
    FeedData,
    /// The final signing or verifying step failed.
    Finish,
}

/// The largest PEM text that OpenSSL's readers take: they hold it in a memory BIO,
/// whose length must fit in a C `int` (`MemBioSlice::new` asserts so).
pub const MAX_PEM_LEN: usize = 0x7fff_ffff;

/// The RSA-SHA256 (PKCS#1 v1.5) signature of `data` under the private key in
/// `pem`. This padding is deterministic, so the signature depends on key and data alone.
pub uninterp spec fn rsa_sha256_signature(pem: Seq<u8>, data: Seq<u8>) -> Seq<u8>;

/// Whether `sig` is a valid RSA-SHA256 (PKCS#1 v1.5) signature of `data` under the
/// public key in `pem`.
pub uninterp spec fn rsa_sha256_valid(pem: Seq<u8>, data: Seq<u8>, sig: Seq<u8>) -> bool;

/// Calls `openssl::rsa::Rsa::public_key_from_pem`, `openssl::pkey::PKey::from_rsa`,
/// `openssl::sign::Verifier::new` with `MessageDigest::sha256()`, `Verifier::update`
/// and `Verifier::verify`, and reports the first step that returned an error.
/// Trusted: a verdict, when one comes, is whether the signature is valid for this key
/// and data (`Verifier::verify` answers `Ok(false)` when OpenSSL's final step reports a
/// mismatch). Whether a step fails is left unsaid: it also rests on OpenSSL's
/// configuration in the environment, and for an encrypted PEM the reader asks for a
/// passphrase on the terminal (the call then waits for it).
#[verifier::external_body]
fn rsa_sha256_verify(public_pem: &[u8], data: &[u8], signature: &[u8]) -> (res: core::result::Result<bool, KeyStep>)
    requires
        public_pem@.len() <= MAX_PEM_LEN,
    ensures
        res matches Ok(b) ==> b == rsa_sha256_valid(public_pem@, data@, signature@),
{
    let Ok(rsa) = openssl::rsa::Rsa::public_key_from_pem(public_pem) else { return Err(KeyStep::ParseKey) };
    let Ok(pkey) = openssl::pkey::PKey::from_rsa(rsa) else { return Err(KeyStep::ConvertKey) };
    let Ok(mut verifier) = openssl::sign::Verifier::new(openssl::hash::MessageDigest::sha256(), &pkey) else {
        return Err(KeyStep::CreateContext)
    };
    if verifier.update(data).is_err() {
        return Err(KeyStep::FeedData);
    }
    verifier.verify(signature).map_err(|_| KeyStep::Finish)
}

/// Calls `openssl::rsa::Rsa::private_key_from_pem`, `openssl::pkey::PKey::from_rsa`,
/// `openssl::sign::Signer::new` with `MessageDigest::sha256()`, `Signer::update` and
/// `Signer::sign_to_vec`, and reports the first step that returned an error.
/// Trusted: a signature, when one comes, is the RSA-SHA256 signature of this data
/// under this key. Whether a step fails is left unsaid: it also rests on OpenSSL's
/// configuration in the environment, and for an encrypted key the reader asks for a
/// passphrase on the terminal (the call then waits for it).
#[verifier::external_body]
fn rsa_sha256_sign(private_pem: &[u8], data: &[u8]) -> (res: core::result::Result<Vec<u8>, KeyStep>)
    requires
        private_pem@.len() <= MAX_PEM_LEN,
    ensures
        res matches Ok(sig) ==> sig@ == rsa_sha256_signature(private_pem@, data@),
{
    let Ok(rsa) = openssl::rsa::Rsa::private_key_from_pem(private_pem) else { return Err(KeyStep::ParseKey) };
    let Ok(pkey) = openssl::pkey::PKey::from_rsa(rsa) else { return Err(KeyStep::ConvertKey) };
    let Ok(mut signer) = openssl::sign::Signer::new(openssl::hash::MessageDigest::sha256(), &pkey) else {
        return Err(KeyStep::CreateContext)
    };
    if signer.update(data).is_err() {
        return Err(KeyStep::FeedData);
    }
    signer.sign_to_vec().map_err(|_| KeyStep::Finish)
}

/// Signs the UTF-8 bytes of `data` with the private key in `private_pem`
/// (RSA-SHA256): OpenSSL's signature, or the step at which it failed.
pub fn send_auth(private_pem: &[u8], data: &str) -> (res: core::result::Result<Vec<u8>, KeyStep>)
    requires
        private_pem@.len() <= MAX_PEM_LEN,
    ensures
        res matches Ok(sig) ==> sig@ == rsa_sha256_signature(private_pem@, encode_utf8(data@)),
{
    rsa_sha256_sign(private_pem, data.as_bytes())
}

/// The signature check's answer for OpenSSL's verification outcome: OpenSSL's
/// verdict, `false` when the final verifying step fails, and the failed step when
/// loading the key or preparing the check fails (the node stops there).
pub fn signature_check_answer(outcome: core::result::Result<bool, KeyStep>) -> (res: core::result::Result<bool, KeyStep>)
    ensures
        match outcome {
            Ok(b) => res == Ok::<bool, KeyStep>(b),
            Err(KeyStep::Finish) => res == Ok::<bool, KeyStep>(false),
            Err(step) => res == Err::<bool, KeyStep>(step),
        },
{
    match outcome {
        Ok(b) => Ok(b),
        Err(KeyStep::Finish) => Ok(false),
        Err(step) => Err(step),
    }
}

/// The vote check on a signed command: whether `signature` is a valid RSA-SHA256
/// signature of `data` under the public key in `public_pem`. Answers as
/// `signature_check_answer` does for OpenSSL's outcome.
pub fn check_auth_valid(public_pem: &[u8], data: &str, signature: &[u8]) -> (res: core::result::Result<bool, KeyStep>)
    requires
        public_pem@.len() <= MAX_PEM_LEN,
    ensures
        res != Err::<bool, KeyStep>(KeyStep::Finish),
        res matches Ok(b) ==> (b ==> rsa_sha256_valid(public_pem@, encode_utf8(data@), signature@)),
{
    signature_check_answer(rsa_sha256_verify(public_pem, data.as_bytes(), signature))
}

/// Whether `signature` is a valid RSA-SHA256 signature of `command` under the public
/// key in `public_pem`: answers as `signature_check_answer` does for OpenSSL's
/// outcome. The final step's failure is never reported as an error, and a `true`
/// answer means the signature is valid.
pub fn verify_signature(public_pem: &[u8], command: &str, signature: &[u8]) -> (res: core::result::Result<bool, KeyStep>)
    requires
        public_pem@.len() <= MAX_PEM_LEN,
    ensures
        res != Err::<bool, KeyStep>(KeyStep::Finish),
        res matches Ok(b) ==> (b ==> rsa_sha256_valid(public_pem@, encode_utf8(command@), signature@)),
{
    signature_check_answer(rsa_sha256_verify(public_pem, command.as_bytes(), signature))
}

/// Signs `command` with the private key in `private_pem` (RSA-SHA256).
pub fn sign_command(private_pem: &[u8], command: &str) -> (res: core::result::Result<Vec<u8>, KeyStep>)
    requires
        private_pem@.len() <= MAX_PEM_LEN,
    ensures
        res matches Ok(sig) ==> sig@ == rsa_sha256_signature(private_pem@, encode_utf8(command@)),
{
    send_auth(private_pem, command)
}

} // verus!
