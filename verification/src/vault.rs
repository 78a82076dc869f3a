//! The encrypted file that holds the credentials: how the key is derived, how the
//! contents are sealed, and how the file is laid out.
use crate::text::{copy, opt_view, starts_with};
use crate::utf8::extend;
use vstd::prelude::*;
use vstd::utf8::{encode_utf8, is_ascii_chars, is_ascii_chars_encode_utf8};

verus! {

broadcast use vstd::string::group_string_axioms;

pub const FILE_MAGIC: &'static str = "SERVERBOX-CREDENTIALS";

pub const FILE_VERSION: u8 = 1;

pub const SALT_LENGTH: usize = 16;

pub const NONCE_LENGTH: usize = 12;

pub const KEY_LENGTH: usize = 32;

/// The memory that deriving a key takes, in kibibytes.
pub const KEY_MEMORY: u32 = 65_536;

/// How often the memory is passed over.
pub const KEY_PASSES: u32 = 3;

pub const KEY_LANES: u32 = 1;

// ---------------------------------------------------------------------------
// argon2, aes-gcm and rand
// ---------------------------------------------------------------------------

/// The Argon2id key of a password and a salt, for this much memory, so many passes and
/// lanes, and this length.
pub uninterp spec fn argon2id_key(
    password: Seq<u8>,
    salt: Seq<u8>,
    memory: u32,
    passes: u32,
    lanes: u32,
    length: usize,
) -> Option<Seq<u8>>;

/// `argon2::Argon2::hash_password_into` for Argon2id, version 0x13: the key, or the
/// reason for which there is none.
#[verifier::external_body]
fn argon2id(
    password: &[u8],
    salt: &[u8],
    memory: u32,
    passes: u32,
    lanes: u32,
    length: usize,
) -> (res: Result<Vec<u8>, String>)
    requires
        memory <= 0x1_0000,
        lanes <= 16,
        length <= 64,
    ensures
        match res {
            Ok(key) => argon2id_key(password@, salt@, memory, passes, lanes, length) == Some(key@)
                && key@.len() == length,
            Err(_) => argon2id_key(password@, salt@, memory, passes, lanes, length) is None,
        },
{
    let params = argon2::Params::new(memory, passes, lanes, Some(length));
    let params = params.map_err(|error| error.to_string())?;
    let (kind, version) = (argon2::Algorithm::Argon2id, argon2::Version::V0x13);
    let mut key = vec![0u8; length];
    argon2::Argon2::new(kind, version, params)
        .hash_password_into(password, salt, &mut key)
        .map_err(|error| error.to_string())?;
    Ok(key)
}

/// What AES-256-GCM makes of a plaintext under a key and a nonce.
pub uninterp spec fn aes_sealed(key: Seq<u8>, nonce: Seq<u8>, plaintext: Seq<u8>) -> Seq<u8>;

/// What AES-256-GCM opens a ciphertext to; nothing where its tag does not fit.
pub uninterp spec fn aes_opened(key: Seq<u8>, nonce: Seq<u8>, ciphertext: Seq<u8>) -> Option<
    Seq<u8>,
>;

/// `aes_gcm::Aes256Gcm::encrypt`: the ciphertext with its tag of 16 bytes, which opens to
/// the plaintext. A plaintext of more than 64 GiB is refused.
#[verifier::external_body]
fn aes_seal(key: &[u8], nonce: &[u8], plaintext: &[u8]) -> (res: Option<Vec<u8>>)
    requires
        key@.len() == 32,
        nonce@.len() == 12,
    ensures
        match res {
            Some(ciphertext) => ciphertext@ == aes_sealed(key@, nonce@, plaintext@)
                && ciphertext@.len() == plaintext@.len() + 16 && aes_opened(
                key@,
                nonce@,
                ciphertext@,
            ) == Some(plaintext@),
            None => plaintext@.len() > 0x10_0000_0000,
        },
{
    let cipher = <aes_gcm::Aes256Gcm as aes_gcm::KeyInit>::new_from_slice(key).ok()?;
    let nonce = aes_gcm::Nonce::from_slice(nonce);
    aes_gcm::aead::Aead::encrypt(&cipher, nonce, plaintext).ok()
}

/// `aes_gcm::Aes256Gcm::decrypt`.
#[verifier::external_body]
fn aes_open(key: &[u8], nonce: &[u8], ciphertext: &[u8]) -> (res: Option<Vec<u8>>)
    requires
        key@.len() == 32,
        nonce@.len() == 12,
    ensures
        opt_view(res) == aes_opened(key@, nonce@, ciphertext@),
{
    let cipher = <aes_gcm::Aes256Gcm as aes_gcm::KeyInit>::new_from_slice(key).ok()?;
    let nonce = aes_gcm::Nonce::from_slice(nonce);
    aes_gcm::aead::Aead::decrypt(&cipher, nonce, ciphertext).ok()
}

/// `rand::rngs::OsRng`: so many random bytes.
#[verifier::external_body]
pub(crate) fn random_bytes(length: usize) -> (res: Vec<u8>)
    ensures
        res@.len() == length,
{
    let mut bytes = vec![0u8; length];
    rand::RngCore::fill_bytes(&mut rand::rngs::OsRng, &mut bytes);
    bytes
}

// ---------------------------------------------------------------------------
// Keys and files
// ---------------------------------------------------------------------------

/// The key of a vault.
pub open spec fn vault_key(password: Seq<char>, salt: Seq<u8>) -> Option<Seq<u8>> {
    argon2id_key(encode_utf8(password), salt, KEY_MEMORY, KEY_PASSES, KEY_LANES, KEY_LENGTH)
}

pub fn derive_key(password: &str, salt: &[u8]) -> (res: Result<Vec<u8>, String>)
    ensures
        match res {
            Ok(key) => vault_key(password@, salt@) == Some(key@) && key@.len() == KEY_LENGTH,
            Err(error) => vault_key(password@, salt@) is None && starts_with(
                error@,
                "Could not derive the credential encryption key: "@,
            ),
        },
{
    match argon2id(password.as_bytes(), salt, KEY_MEMORY, KEY_PASSES, KEY_LANES, KEY_LENGTH) {
        Ok(key) => Ok(key),
        Err(error) => {
            let mut message = copy("Could not derive the credential encryption key: ");
            message.append(error.as_str());
            proof {
                let prefix = "Could not derive the credential encryption key: "@;
                assert(message@.take(prefix.len() as int) =~= prefix);
            }
            Err(message)
        },
    }
}

/// The bytes of the file's first mark.
pub open spec fn magic() -> Seq<u8> {
    encode_utf8(FILE_MAGIC@)
}

pub proof fn lemma_magic()
    ensures
        magic().len() == 21,
{
    reveal_strlit("SERVERBOX-CREDENTIALS");
    assert(is_ascii_chars(FILE_MAGIC@));
    is_ascii_chars_encode_utf8(FILE_MAGIC@);
}

/// The file: its mark, its version, the salt, the nonce and the sealed contents.
pub open spec fn vault_file(salt: Seq<u8>, nonce: Seq<u8>, ciphertext: Seq<u8>) -> Seq<u8> {
    magic() + seq![FILE_VERSION] + salt + nonce + ciphertext
}

/// The parts of a vault file.
#[derive(Debug, PartialEq, Eq)]
pub struct VaultParts {
    pub salt: Vec<u8>,
    pub nonce: Vec<u8>,
    pub ciphertext: Vec<u8>,
}

#[verifier::ext_equal]
pub struct VaultPartsView {
    pub salt: Seq<u8>,
    pub nonce: Seq<u8>,
    pub ciphertext: Seq<u8>,
}

impl View for VaultParts {
    type V = VaultPartsView;

    open spec fn view(&self) -> VaultPartsView {
        VaultPartsView { salt: self.salt@, nonce: self.nonce@, ciphertext: self.ciphertext@ }
    }
}

/// What a file is read as: something has to follow its head of 50 bytes.
pub open spec fn parsed_file(bytes: Seq<u8>) -> Result<VaultPartsView, Seq<char>> {
    if bytes.len() <= 50 || bytes.take(21) != magic() {
        Err("The encrypted credential vault has an unsupported format."@)
    } else if bytes[21] != FILE_VERSION {
        Err("The encrypted credential vault has an unsupported version."@)
    } else {
        Ok(
            VaultPartsView {
                salt: bytes.subrange(22, 38),
                nonce: bytes.subrange(38, 50),
                ciphertext: bytes.skip(50),
            },
        )
    }
}

fn part_of(bytes: &[u8], from: usize, to: usize) -> (res: Vec<u8>)
    requires
        from <= to <= bytes@.len(),
    ensures
        res@ == bytes@.subrange(from as int, to as int),
{
    let mut out: Vec<u8> = Vec::new();
    let mut i: usize = from;
    while i < to
        invariant
            from <= i <= to <= bytes@.len(),
            out@ == bytes@.subrange(from as int, i as int),
        decreases to - i,
    {
        out.push(bytes[i]);
        i += 1;
    }
    out
}

fn begins_with_magic(bytes: &[u8]) -> (res: bool)
    requires
        bytes@.len() > 50,
    ensures
        res == (bytes@.take(21) == magic()),
{
    proof {
        lemma_magic();
    }
    let mark = FILE_MAGIC.as_bytes();
    let mut i: usize = 0;
    while i < 21
        invariant
            i <= 21,
            mark@ == magic(),
            mark@.len() == 21,
            bytes@.len() > 50,
            forall|j: int| 0 <= j < i ==> bytes@[j] == mark@[j],
        decreases 21 - i,
    {
        if bytes[i] != mark[i] {
            assert(bytes@.take(21)[i as int] != magic()[i as int]);
            return false;
        }
        i += 1;
    }
    assert(bytes@.take(21) =~= magic());
    true
}

/// Reads the parts of a vault file.
pub fn parse_file(bytes: &[u8]) -> (res: Result<VaultParts, String>)
    ensures
        match res {
            Ok(parts) => parsed_file(bytes@) == Ok::<VaultPartsView, Seq<char>>(parts@)
                && parts.nonce@.len() == NONCE_LENGTH && parts.salt@.len() == SALT_LENGTH,
            Err(error) => parsed_file(bytes@) == Err::<VaultPartsView, Seq<char>>(error@),
        },
{
    if bytes.len() <= 50 || !begins_with_magic(bytes) {
        return Err(copy("The encrypted credential vault has an unsupported format."));
    }
    if bytes[21] != FILE_VERSION {
        return Err(copy("The encrypted credential vault has an unsupported version."));
    }
    let length: usize = bytes.len();
    let ciphertext = part_of(bytes, 50, length);
    assert(ciphertext@ =~= bytes@.skip(50));
    Ok(VaultParts { salt: part_of(bytes, 22, 38), nonce: part_of(bytes, 38, 50), ciphertext })
}

/// A file is read back as it was laid out.
pub proof fn files_read_back(salt: Seq<u8>, nonce: Seq<u8>, ciphertext: Seq<u8>)
    requires
        salt.len() == SALT_LENGTH,
        nonce.len() == NONCE_LENGTH,
        ciphertext.len() > 0,
    ensures
        parsed_file(vault_file(salt, nonce, ciphertext)) == Ok::<VaultPartsView, Seq<char>>(
            VaultPartsView { salt, nonce, ciphertext },
        ),
{
    lemma_magic();
    let file = vault_file(salt, nonce, ciphertext);
    assert(file.take(21) =~= magic());
    assert(file[21] == FILE_VERSION);
    assert(file.subrange(22, 38) =~= salt);
    assert(file.subrange(38, 50) =~= nonce);
    assert(file.skip(50) =~= ciphertext);
}

/// Seals `plaintext` into a vault file.
pub fn seal(key: &[u8], salt: &[u8], nonce: &[u8], plaintext: &[u8]) -> (res: Result<
    Vec<u8>,
    String,
>)
    requires
        key@.len() == KEY_LENGTH,
        salt@.len() == SALT_LENGTH,
        nonce@.len() == NONCE_LENGTH,
    ensures
        match res {
            Ok(file) => file@ == vault_file(salt@, nonce@, aes_sealed(key@, nonce@, plaintext@))
                && opened_file(file@, key@) == Ok::<Seq<u8>, Seq<char>>(plaintext@) && (
            parsed_file(file@) matches Ok(parts) && parts.salt == salt@),
            Err(error) => plaintext@.len() > 0x10_0000_0000 && error@
                == "Could not encrypt the credential vault"@,
        },
{
    match aes_seal(key, nonce, plaintext) {
        Some(ciphertext) => {
            let mut file: Vec<u8> = Vec::new();
            extend(&mut file, FILE_MAGIC.as_bytes());
            file.push(FILE_VERSION);
            extend(&mut file, salt);
            extend(&mut file, nonce);
            extend(&mut file, &ciphertext);
            proof {
                assert(file@ =~= vault_file(salt@, nonce@, ciphertext@));
                files_read_back(salt@, nonce@, ciphertext@);
            }
            Ok(file)
        },
        None => Err(copy("Could not encrypt the credential vault")),
    }
}

pub const VAULT_DAMAGED: &'static str =
    "MASTER_PASSWORD_INVALID: The master password is incorrect or the credential vault is damaged.";

/// What a vault file opens to under a key.
pub open spec fn opened_file(file: Seq<u8>, key: Seq<u8>) -> Result<Seq<u8>, Seq<char>> {
    match parsed_file(file) {
        Err(error) => Err(error),
        Ok(parts) => match aes_opened(key, parts.nonce, parts.ciphertext) {
            Some(plaintext) => Ok(plaintext),
            None => Err(VAULT_DAMAGED@),
        },
    }
}

/// Opens the parts of a vault file.
pub fn open_parts(parts: &VaultParts, key: &[u8]) -> (res: Result<Vec<u8>, String>)
    requires
        key@.len() == KEY_LENGTH,
        parts.nonce@.len() == NONCE_LENGTH,
    ensures
        match res {
            Ok(plaintext) => aes_opened(key@, parts.nonce@, parts.ciphertext@) == Some(plaintext@),
            Err(error) => aes_opened(key@, parts.nonce@, parts.ciphertext@) is None && error@
                == VAULT_DAMAGED@,
        },
{
    match aes_open(key, parts.nonce.as_slice(), parts.ciphertext.as_slice()) {
        Some(plaintext) => Ok(plaintext),
        None => Err(copy(VAULT_DAMAGED)),
    }
}

// ---------------------------------------------------------------------------
// Writing
// ---------------------------------------------------------------------------

/// The name that the vault has while it is written.
pub fn vault_staging_name(name: &str, id: &str) -> (res: String)
    ensures
        res@ == "."@ + name@ + "."@ + id@ + ".tmp"@,
{
    crate::text::glue5(".", name, ".", id, ".tmp")
}

/// How far the writing of the vault has come.
#[derive(Clone, Copy, Debug, PartialEq, Eq, Structural)]
pub enum VaultStage {
    Create,
    Write,
    Flush,
    Replace,
    Finalize,
}

/// Why the writing of the vault failed. What was written is then removed.
pub open spec fn vault_failure_text(stage: VaultStage, detail: Seq<char>) -> Seq<char> {
    (match stage {
        VaultStage::Create => "Could not create the encrypted credential vault: "@,
        VaultStage::Write => "Could not write the encrypted credential vault: "@,
        VaultStage::Flush => "Could not flush the encrypted credential vault: "@,
        VaultStage::Replace => "Could not replace the encrypted credential vault: "@,
        VaultStage::Finalize => "Could not finalize the encrypted credential vault: "@,
    }) + detail
}

pub fn vault_failure(stage: VaultStage, detail: &str) -> (res: String)
    ensures
        res@ == vault_failure_text(stage, detail@),
{
    crate::text::glue2(
        match stage {
            VaultStage::Create => "Could not create the encrypted credential vault: ",
            VaultStage::Write => "Could not write the encrypted credential vault: ",
            VaultStage::Flush => "Could not flush the encrypted credential vault: ",
            VaultStage::Replace => "Could not replace the encrypted credential vault: ",
            VaultStage::Finalize => "Could not finalize the encrypted credential vault: ",
        },
        detail,
    )
}

/// The key of a vault is made by Argon2id of 64 MiB in three passes, of the password and the
/// salt; it has 32 bytes.
pub proof fn keys_are_made_of_password_and_salt(password: Seq<char>, salt: Seq<u8>)
    ensures
        vault_key(password, salt) == argon2id_key(encode_utf8(password), salt, 65536, 3, 1, 32),
{
}

/// A vault file is its name, a version, sixteen bytes of salt, twelve of nonce and the
/// ciphertext; a file that begins otherwise is no vault.
pub proof fn vault_files_have_this_form(bytes: Seq<u8>, salt: Seq<u8>, nonce: Seq<u8>, ciphertext: Seq<u8>)
    ensures
        vault_file(salt, nonce, ciphertext) == encode_utf8("SERVERBOX-CREDENTIALS"@) + seq![1u8]
            + salt + nonce + ciphertext,
        parsed_file(bytes) is Ok <==> bytes.len() > 50 && bytes.take(21) == encode_utf8(
            "SERVERBOX-CREDENTIALS"@,
        ) && bytes[21] == 1,
        parsed_file(bytes) matches Ok(parts) ==> bytes.skip(22) == parts.salt + parts.nonce
            + parts.ciphertext && parts.salt.len() == 16 && parts.nonce.len() == 12,
{
    if bytes.len() > 50 {
        assert(bytes.skip(22) =~= bytes.subrange(22, 38) + bytes.subrange(38, 50) + bytes.skip(50));
    }
}

} // verus!
