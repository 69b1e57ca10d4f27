//! Names of the files at which the processes of one tmux server meet.

use std::hash::DefaultHasher;
use std::hash::Hasher;

use vstd::bytes::u32_to_le_bytes;
use vstd::prelude::*;
use vstd::std_specs::hash::DefaultHasherAdditionalSpecFns;

use crate::text::fields;
use crate::text::numbers;
use crate::text::strings;
use crate::version;

verus! {

/// Version of the wire format between a sidebar and the snapshot daemon.
pub const PROTOCOL_VERSION: u8 = 2;

/// Version of what the daemon keeps, where the wire format stays the same.
pub const DAEMON_CACHE_REVISION: u8 = 1;

/// What a text contributes to a hash: its bytes, and a byte that ends it.
pub open spec fn text_writes(text: Seq<char>) -> Seq<Seq<u8>> {
    seq![vstd::utf8::encode_utf8(text), seq![0xffu8]]
}

/// The socket path in the value of `TMUX`, which commas end.
pub open spec fn socket_path(tmux: Seq<char>) -> Seq<char> {
    fields::fields(tmux, ',', Some(2))[0]
}

/// What is hashed for the key of a server: the user, the version of this program,
/// both protocol versions, and the socket of the server.
pub open spec fn key_writes(uid: u32, tmux: Seq<char>) -> Seq<Seq<u8>> {
    seq![vstd::bytes::spec_u32_to_le_bytes(uid)] + text_writes(version::LOCAL_VERSION@) + seq![
        seq![PROTOCOL_VERSION],
        seq![DAEMON_CACHE_REVISION],
    ] + text_writes(socket_path(tmux))
}

/// The key of a server. Programs with different keys do not share a daemon.
pub open spec fn key_of(uid: u32, tmux: Seq<char>) -> u64 {
    DefaultHasher::spec_finish(key_writes(uid, tmux))
}

/// Hashes a text.
fn write_text(hasher: &mut DefaultHasher, text: &str)
    ensures
        final(hasher)@ == old(hasher)@ + text_writes(text@),
{
    hasher.write(text.as_bytes());
    hasher.write(&[0xff]);
    assert(hasher@ =~~= old(hasher)@ + text_writes(text@));
}

/// Computes the key of a server from the user and the value of `TMUX`.
pub fn server_key(uid: u32, tmux: &str) -> (key: u64)
    ensures
        key == key_of(uid, tmux@),
{
    let mut hasher = DefaultHasher::new();
    hasher.write(u32_to_le_bytes(uid).as_slice());
    write_text(&mut hasher, version::LOCAL_VERSION);
    hasher.write(&[PROTOCOL_VERSION]);
    hasher.write(&[DAEMON_CACHE_REVISION]);
    let parts = fields::split_fields(tmux, ',', Some(2));
    proof {
        fields::lemma_fields_count(tmux@, ',', Some(2));
    }
    assert(strings::texts(parts@)[0] == parts@[0]@);
    write_text(&mut hasher, parts[0].as_str());
    assert(hasher@ =~~= key_writes(uid, tmux@));
    hasher.finish()
}

/// The name of a runtime file of the server with this key.
pub open spec fn runtime_name(key: u64, extension: Seq<char>) -> Seq<char> {
    "tmux-agent-sidebar-"@ + numbers::hex_digits(key as nat, 16) + "."@ + extension
}

/// Names a runtime file of a server.
pub fn runtime_file_name(uid: u32, tmux: &str, extension: &str) -> (name: String)
    ensures
        name@ == runtime_name(key_of(uid, tmux@), extension@),
{
    let digits = numbers::to_hex(server_key(uid, tmux), 16);
    let mut name = strings::joined("tmux-agent-sidebar-", digits.as_str(), ".");
    name.append(extension);
    name
}

/// What is hashed for the lock of a window: the value of `TMUX`, and the window.
pub open spec fn lock_writes(tmux: Seq<char>, window_id: Seq<char>) -> Seq<Seq<u8>> {
    text_writes(tmux) + text_writes(window_id)
}

/// The name of the file that is locked while a sidebar is created in a window.
pub open spec fn create_lock_name(tmux: Seq<char>, window_id: Seq<char>) -> Seq<char> {
    "tmux-agent-sidebar-create-"@ + numbers::hex_digits(
        DefaultHasher::spec_finish(lock_writes(tmux, window_id)) as nat,
        16,
    ) + ".lock"@
}

/// Names the file that is locked while a sidebar is created in a window, from
/// the value of `TMUX`.
pub fn create_lock_file_name(tmux: &str, window_id: &str) -> (name: String)
    ensures
        name@ == create_lock_name(tmux@, window_id@),
{
    let mut hasher = DefaultHasher::new();
    write_text(&mut hasher, tmux);
    write_text(&mut hasher, window_id);
    assert(hasher@ =~~= lock_writes(tmux@, window_id@));
    let digits = numbers::to_hex(hasher.finish(), 16);
    strings::joined("tmux-agent-sidebar-create-", digits.as_str(), ".lock")
}

// ---- laws ----

/// The runtime files of one server differ in their extension only, and files of
/// servers with different keys have different names.
pub proof fn runtime_files_share_a_stem(key: u64, other: u64, a: Seq<char>, b: Seq<char>)
    ensures
        ({
            let stem = "tmux-agent-sidebar-"@ + numbers::hex_digits(key as nat, 16) + "."@;
            &&& runtime_name(key, a) == stem + a
            &&& runtime_name(key, b) == stem + b
        }),
        key != other ==> runtime_name(key, a) != runtime_name(other, b),
{
    let head = "tmux-agent-sidebar-"@;
    let x = numbers::hex_digits(key as nat, 16);
    let y = numbers::hex_digits(other as nat, 16);
    numbers::lemma_hex_len(key as nat, 16);
    numbers::lemma_hex_len(other as nat, 16);
    if key != other && runtime_name(key, a) == runtime_name(other, b) {
        assert(x =~= runtime_name(key, a).subrange(head.len() as int, head.len() as int + 16));
        assert(y =~= runtime_name(other, b).subrange(head.len() as int, head.len() as int + 16));
        numbers::hex_digits_tell_apart(key, other);
    }
}

/// The socket of a server is what stands before the first comma; what follows
/// changes neither the key nor the names of its files.
pub proof fn sessions_of_a_server_share_its_key(
    uid: u32,
    socket: Seq<char>,
    session: Seq<char>,
    other: Seq<char>,
)
    requires
        !socket.contains(','),
    ensures
        socket_path(socket) == socket,
        socket_path(socket.push(',') + session) == socket,
        key_of(uid, socket.push(',') + session) == key_of(uid, socket.push(',') + other),
        key_of(uid, socket.push(',') + session) == key_of(uid, socket),
{
    fields::one_field_is_the_text(socket, ',', Some(2));
    fields::first_field_splits_off(socket, ',', session, Some(2));
    fields::first_field_splits_off(socket, ',', other, Some(2));
}

/// Different users and different sockets are told apart by what is hashed for
/// their keys, and different windows by what is hashed for their locks.
pub proof fn servers_and_windows_are_told_apart(
    uid: u32,
    tmux: Seq<char>,
    other_uid: u32,
    other_tmux: Seq<char>,
    window_id: Seq<char>,
    other_window: Seq<char>,
)
    ensures
        key_writes(uid, tmux) == key_writes(other_uid, other_tmux) ==> uid == other_uid
            && socket_path(tmux) == socket_path(other_tmux),
        lock_writes(tmux, window_id) == lock_writes(other_tmux, other_window) ==> tmux
            == other_tmux && window_id == other_window,
        key_writes(uid, tmux)[1] == vstd::utf8::encode_utf8(version::LOCAL_VERSION@),
        key_writes(uid, tmux)[3] == seq![2u8],
        key_writes(uid, tmux)[4] == seq![1u8],
{
    vstd::bytes::lemma_auto_spec_u32_to_from_le_bytes();
    let a = key_writes(uid, tmux);
    let b = key_writes(other_uid, other_tmux);
    assert(a[0] == vstd::bytes::spec_u32_to_le_bytes(uid));
    assert(b[0] == vstd::bytes::spec_u32_to_le_bytes(other_uid));
    assert(a[5] == vstd::utf8::encode_utf8(socket_path(tmux)));
    assert(b[5] == vstd::utf8::encode_utf8(socket_path(other_tmux)));
    vstd::utf8::encode_utf8_decode_utf8(socket_path(tmux));
    vstd::utf8::encode_utf8_decode_utf8(socket_path(other_tmux));
    let c = lock_writes(tmux, window_id);
    let d = lock_writes(other_tmux, other_window);
    assert(c[0] == vstd::utf8::encode_utf8(tmux) && c[2] == vstd::utf8::encode_utf8(window_id));
    assert(d[0] == vstd::utf8::encode_utf8(other_tmux) && d[2] == vstd::utf8::encode_utf8(
        other_window,
    ));
    vstd::utf8::encode_utf8_decode_utf8(tmux);
    vstd::utf8::encode_utf8_decode_utf8(other_tmux);
    vstd::utf8::encode_utf8_decode_utf8(window_id);
    vstd::utf8::encode_utf8_decode_utf8(other_window);
}

/// The name of a lock file is a stem, sixteen hexadecimal digits and an extension,
/// and so is the name of a runtime file, so that every key of 64 bits has its own.
pub proof fn file_names_have_sixteen_digits(
    key: u64,
    extension: Seq<char>,
    tmux: Seq<char>,
    window_id: Seq<char>,
)
    ensures
        ({
            let lock = create_lock_name(tmux, window_id);
            let name = runtime_name(key, extension);
            &&& lock.len() == 47
            &&& lock.take(26) == "tmux-agent-sidebar-create-"@
            &&& lock.skip(42) == ".lock"@
            &&& name.len() == 36 + extension.len()
            &&& name.take(19) == "tmux-agent-sidebar-"@
            &&& name[35] == '.'
            &&& name.skip(36) == extension
        }),
{
    reveal_strlit("tmux-agent-sidebar-create-");
    reveal_strlit("tmux-agent-sidebar-");
    reveal_strlit(".lock");
    reveal_strlit(".");
    assert("tmux-agent-sidebar-create-"@.len() == 26);
    assert("tmux-agent-sidebar-"@.len() == 19);
    assert(".lock"@.len() == 5);
    assert("."@.len() == 1);
    numbers::lemma_hex_len(key as nat, 16);
    numbers::lemma_hex_len(DefaultHasher::spec_finish(lock_writes(tmux, window_id)) as nat, 16);
    let lock = create_lock_name(tmux, window_id);
    let name = runtime_name(key, extension);
    assert(lock.take(26) =~= "tmux-agent-sidebar-create-"@);
    assert(lock.skip(42) =~= ".lock"@);
    assert(name.take(19) =~= "tmux-agent-sidebar-"@);
    assert(name.skip(36) =~= extension);
}

} // verus!
