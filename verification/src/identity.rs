//! Principals, local identifiers and the numeric ids of entities.
use vstd::prelude::*;
use vstd::string::*;
use vstd::utf8::encode_utf8;

use crate::text::blank;
use crate::text::chars_of;
use crate::text::concat;
use crate::text::decimal;
use crate::text::decimal_of;
use crate::text::has_prefix;
use crate::text::is_blank;
use crate::lists::opt_view;
use crate::text::split;
use crate::text::split_at;
use crate::text::split_once;
use crate::text::split_once_at;
use crate::text::starts_with;
use crate::text::strip_prefix;
use crate::text::text_eq;
use crate::text::trim;
use crate::text::trimmed;
use crate::lists::views;

verus! {

/// The characters that a local identifier may hold.
pub open spec fn is_safe_char(c: char) -> bool {
    'a' <= c <= 'z' || 'A' <= c <= 'Z' || '0' <= c <= '9' || c == '-' || c == '_'
}

/// A text of one to `max` letters, digits, hyphens and underscores.
pub open spec fn is_safe_text(s: Seq<char>, max: int) -> bool {
    &&& 0 < s.len() <= max
    &&& forall|i: int| 0 <= i < s.len() ==> is_safe_char(#[trigger] s[i])
}

fn safe_text(s: &str, max: usize) -> (r: bool)
    ensures
        r == is_safe_text(s@, max as int),
{
    let v = chars_of(s);
    if v.len() == 0 || v.len() > max {
        return false;
    }
    let mut i: usize = 0;
    while i < v.len()
        invariant
            v@ == s@,
            i <= v@.len(),
            forall|j: int| 0 <= j < i ==> is_safe_char(#[trigger] s@[j]),
        decreases v@.len() - i,
    {
        let c = v[i];
        if !(('a' <= c && c <= 'z') || ('A' <= c && c <= 'Z') || ('0' <= c && c <= '9') || c == '-'
            || c == '_') {
            assert(!is_safe_char(s@[i as int]));
            return false;
        }
        i = i + 1;
    }
    true
}

/// Whether a principal names a guest: the shared guest, or a guest with an
/// identifier of its own.
pub open spec fn guest_principal_text(principal: Seq<char>) -> bool {
    ||| principal == "guest"@
    ||| {
        &&& has_prefix(principal, "guest:"@)
        &&& is_safe_text(principal.skip("guest:"@.len() as int), 96)
    }
}

/// Whether a principal names a guest.
pub fn is_guest_principal(principal: &str) -> (r: bool)
    ensures
        r == guest_principal_text(principal@),
{
    if text_eq(principal, "guest") {
        return true;
    }
    match strip_prefix(principal, "guest:") {
        Some(identifier) => safe_text(&identifier, 96),
        None => false,
    }
}

/// The principal of an account.
pub open spec fn account_principal_text(account_id: Seq<char>) -> Seq<char> {
    "account:"@ + account_id
}

/// The principal of an account.
pub fn account_principal(account_id: &str) -> (r: String)
    ensures
        r@ == account_principal_text(account_id@),
{
    concat("account:", account_id)
}

/// Whether a principal names an account.
pub fn is_account_principal(principal: &str) -> (r: bool)
    ensures
        r == has_prefix(principal@, "account:"@),
{
    starts_with(principal, "account:")
}

/// No account is ever taken for a guest.
pub proof fn accounts_are_no_guests(account_id: Seq<char>)
    ensures
        !guest_principal_text(account_principal_text(account_id)),
        has_prefix(account_principal_text(account_id), "account:"@),
{
    reveal_strlit("account:");
    reveal_strlit("guest");
    reveal_strlit("guest:");
    let p = account_principal_text(account_id);
    assert(p[0] == 'a');
    assert("guest"@[0] == 'g');
    assert("guest:"@[0] == 'g');
    assert(p.take("account:"@.len() as int) =~= "account:"@);
    if has_prefix(p, "guest:"@) {
        assert(p.take("guest:"@.len() as int)[0] == 'g');
    }
}

/// The guest principal that a browser kept: the first store that holds a value
/// decides, and a value that names no guest of its own counts as none.
pub open spec fn kept_guest(
    local: Option<Seq<char>>,
    session: Option<Seq<char>>,
    cookie: Option<Seq<char>>,
) -> Option<Seq<char>> {
    let stored = if local is Some {
        local
    } else if session is Some {
        session
    } else {
        cookie
    };
    match stored {
        Some(principal) => if guest_principal_text(principal) && principal != "guest"@ {
            Some(principal)
        } else {
            None
        },
        None => None,
    }
}

/// The guest principal that a browser kept, where it kept one.
pub fn stored_guest_principal(
    local: Option<String>,
    session: Option<String>,
    cookie: Option<String>,
) -> (r: Option<String>)
    ensures
        opt_view(r) == kept_guest(opt_view(local), opt_view(session), opt_view(cookie)),
{
    let stored = if local.is_some() {
        local
    } else if session.is_some() {
        session
    } else {
        cookie
    };
    match stored {
        Some(principal) => if is_guest_principal(&principal) && !text_eq(&principal, "guest") {
            Some(principal)
        } else {
            None
        },
        None => None,
    }
}

/// The text of two numbers with a hyphen between them.
pub open spec fn stamp(now: u64, random: u64) -> Seq<char> {
    decimal(now as nat) + "-"@ + decimal(random as nat)
}

/// The identifier for a browser without a source of unique identifiers.
pub fn fallback_identifier(now: u64, random: u64) -> (r: String)
    ensures
        r@ == stamp(now, random),
{
    concat(&concat(&decimal_of(now), "-"), &decimal_of(random))
}

/// The principal of a new guest.
pub fn new_guest_principal(unique: Option<String>, now: u64, random: u64) -> (r: String)
    ensures
        r@ == "guest:"@ + (match unique {
            Some(identifier) => identifier@,
            None => stamp(now, random),
        }),
{
    match unique {
        Some(identifier) => concat("guest:", &identifier),
        None => concat("guest:", &fallback_identifier(now, random)),
    }
}

/// The identifier of a new change that has to be sent.
pub fn next_sync_mutation_id(
    unique: Option<String>,
    device_id: &str,
    now: u64,
    random: u64,
) -> (r: String)
    ensures
        r@ == (match unique {
            Some(identifier) => identifier@,
            None => device_id@ + "-"@ + stamp(now, random),
        }),
{
    match unique {
        Some(identifier) => identifier,
        None => concat(&concat(device_id, "-"), &fallback_identifier(now, random)),
    }
}

/// Where a browser can keep the guest principal.
#[derive(Clone, Copy, Debug, PartialEq, Eq, Structural)]
pub enum GuestStore {
    Local,
    Session,
    Cookie,
}

/// The store to try after another one refused: local storage first, then the
/// session's, then a cookie.
pub fn next_guest_store(refused: Option<GuestStore>) -> (r: Option<GuestStore>)
    ensures
        r == (match refused {
            None => Some(GuestStore::Local),
            Some(GuestStore::Local) => Some(GuestStore::Session),
            Some(GuestStore::Session) => Some(GuestStore::Cookie),
            Some(GuestStore::Cookie) => None,
        }),
{
    match refused {
        None => Some(GuestStore::Local),
        Some(GuestStore::Local) => Some(GuestStore::Session),
        Some(GuestStore::Session) => Some(GuestStore::Cookie),
        Some(GuestStore::Cookie) => None,
    }
}

/// The value that one piece of a cookie header gives to a name.
pub open spec fn cookie_piece(piece: Seq<char>, name: Seq<char>) -> Option<Seq<char>> {
    match split_once_at(trimmed(piece), '=') {
        Some((key, value)) => if key == name && !blank(value) {
            Some(trimmed(value))
        } else {
            None
        },
        None => None,
    }
}

/// The first value that the pieces give to a name.
pub open spec fn first_cookie(pieces: Seq<Seq<char>>, name: Seq<char>) -> Option<Seq<char>>
    decreases pieces.len(),
{
    if pieces.len() == 0 {
        None
    } else {
        match cookie_piece(pieces[0], name) {
            Some(value) => Some(value),
            None => first_cookie(pieces.skip(1), name),
        }
    }
}

/// The value of a cookie in the browser's cookie text.
pub fn browser_cookie(cookies: &str, name: &str) -> (r: Option<String>)
    ensures
        opt_view(r) == first_cookie(split_at(cookies@, ';'), name@),
{
    let pieces = split(cookies, ';');
    let mut i: usize = 0;
    assert(views(pieces@).skip(0) =~= views(pieces@));
    while i < pieces.len()
        invariant
            views(pieces@) == split_at(cookies@, ';'),
            i <= pieces@.len(),
            first_cookie(split_at(cookies@, ';'), name@) == first_cookie(
                views(pieces@).skip(i as int),
                name@,
            ),
        decreases pieces@.len() - i,
    {
        assert(views(pieces@).skip(i as int)[0] == pieces@[i as int]@);
        assert(views(pieces@).skip(i as int).skip(1) =~= views(pieces@).skip(i + 1));
        let piece = trim(&pieces[i]);
        if let Some((key, value)) = split_once(&piece, '=') {
            if text_eq(&key, name) && !is_blank(&value) {
                return Some(trim(&value));
            }
        }
        i = i + 1;
    }
    None
}

/// The text that sets a cookie for a year.
pub fn cookie_assignment(name: &str, value: &str) -> (r: String)
    ensures
        r@ == name@ + "="@ + value@ + "; Path=/; Max-Age=31536000; SameSite=Lax"@,
{
    concat(&concat(&concat(name, "="), value), "; Path=/; Max-Age=31536000; SameSite=Lax")
}

/// Whether a text can be used as a device identifier.
pub fn is_safe_local_identifier(value: &str) -> (r: bool)
    ensures
        r == is_safe_text(value@, 128),
{
    safe_text(value, 128)
}

/// Where a browser's device identifier comes from.
#[derive(Debug, PartialEq)]
pub enum DeviceId {
    /// The browser has no storage to keep one in.
    Unstored(String),
    /// The browser already keeps it.
    Kept(String),
    /// It is new and has to be kept.
    Fresh(String),
}

/// The device identifier of a browser: a kept one that is well formed, or a
/// new one; a fixed one where nothing can be kept.
pub fn load_device_id(
    has_storage: bool,
    stored: Option<String>,
    unique: Option<String>,
    now: u64,
    random: u64,
) -> (r: DeviceId)
    ensures
        match r {
            DeviceId::Unstored(id) => !has_storage && id@ == "device-local"@,
            DeviceId::Kept(id) => has_storage && opt_view(stored) == Some(id@) && is_safe_text(
                id@,
                128,
            ),
            DeviceId::Fresh(id) => {
                &&& has_storage
                &&& stored matches Some(kept) ==> !is_safe_text(kept@, 128)
                &&& id@ == "device-"@ + (match unique {
                    Some(identifier) => identifier@,
                    None => stamp(now, random),
                })
            },
        },
{
    if !has_storage {
        return DeviceId::Unstored("device-local".to_owned());
    }
    if let Some(kept) = stored {
        if is_safe_local_identifier(&kept) {
            return DeviceId::Kept(kept);
        }
    }
    match unique {
        Some(identifier) => DeviceId::Fresh(concat("device-", &identifier)),
        None => DeviceId::Fresh(concat("device-", &fallback_identifier(now, random))),
    }
}

/// One step of the Fowler-Noll-Vo hash.
pub open spec fn fnv_step(hash: u64, word: u64) -> u64 {
    (((hash ^ word) as int * 0x100000001b3) % 0x1_0000_0000_0000_0000) as u64
}

/// The Fowler-Noll-Vo hash of some bytes, begun at `hash`.
pub open spec fn fnv(hash: u64, bytes: Seq<u8>) -> u64
    decreases bytes.len(),
{
    if bytes.len() == 0 {
        hash
    } else {
        fnv_step(fnv(hash, bytes.drop_last()), bytes.last() as u64)
    }
}

/// The start of the hash.
pub const FNV_OFFSET: u64 = 0xcbf29ce484222325;

/// A hash cut down to a positive number that a double can hold exactly.
pub open spec fn entity_number(hash: u64) -> u64 {
    let candidate = hash % 0x20_0000_0000_0000;
    if candidate == 0 {
        1
    } else {
        candidate
    }
}

fn step(hash: u64, word: u64) -> (r: u64)
    ensures
        r == fnv_step(hash, word),
{
    (hash ^ word).wrapping_mul(0x100000001b3)
}

fn hash_text(start: u64, text: &str) -> (r: u64)
    ensures
        r == fnv(start, encode_utf8(text@)),
{
    let bytes = text.as_bytes();
    let mut hash: u64 = start;
    let mut i: usize = 0;
    while i < bytes.len()
        invariant
            bytes@ == encode_utf8(text@),
            i <= bytes@.len(),
            hash == fnv(start, bytes@.take(i as int)),
        decreases bytes@.len() - i,
    {
        assert(bytes@.take(i + 1).drop_last() =~= bytes@.take(i as int));
        hash = step(hash, bytes[i] as u64);
        i = i + 1;
    }
    assert(bytes@.take(i as int) =~= bytes@);
    hash
}

fn to_entity_number(hash: u64) -> (r: u64)
    ensures
        r == entity_number(hash),
{
    let candidate: u64 = hash % 0x20_0000_0000_0000;
    if candidate == 0 {
        1
    } else {
        candidate
    }
}

/// The id of the first space of a principal, the same in every tab.
pub fn initial_space_id(principal: &str) -> (r: u64)
    ensures
        r == entity_number(fnv(FNV_OFFSET, encode_utf8(principal@))),
        1 <= r < 0x20_0000_0000_0000,
{
    to_entity_number(hash_text(FNV_OFFSET, principal))
}

/// A numeric id made of a unique identifier and the device's; of the time and
/// a random number too where there is no unique identifier.
pub open spec fn entity_seed(unique: Seq<char>, device_id: Seq<char>, now: u64, random: u64) -> u64 {
    let hash = fnv(fnv(FNV_OFFSET, encode_utf8(unique)), encode_utf8(device_id));
    entity_number(
        if unique.len() == 0 {
            fnv_step(hash, now) ^ random
        } else {
            hash
        },
    )
}

/// A numeric id for a new entity.
pub fn local_entity_seed(unique: &str, device_id: &str, now: u64, random: u64) -> (r: u64)
    ensures
        r == entity_seed(unique@, device_id@, now, random),
        1 <= r < 0x20_0000_0000_0000,
{
    let hash: u64 = hash_text(hash_text(FNV_OFFSET, unique), device_id);
    if unique.is_empty() {
        to_entity_number(step(hash, now) ^ random)
    } else {
        to_entity_number(hash)
    }
}

/// A hexadecimal digit.
pub open spec fn hex_digit(n: int) -> char {
    if n < 10 {
        ((n + 48) as u8) as char
    } else {
        ((n + 87) as u8) as char
    }
}

/// The last `width` hexadecimal digits of a number.
pub open spec fn hex_digits(n: int, width: nat) -> Seq<char>
    decreases width,
{
    if width == 0 {
        Seq::<char>::empty()
    } else {
        hex_digits(n / 16, (width - 1) as nat).push(hex_digit(n % 16))
    }
}

fn write_hex(n: u64, width: usize) -> (r: String)
    ensures
        r@ == hex_digits(n as int, width as nat),
    decreases width,
{
    if width == 0 {
        String::new()
    } else {
        let mut r = write_hex(n / 16, width - 1);
        let d: u8 = (n % 16) as u8;
        r.push(
            if d < 10 {
                (d + 48) as char
            } else {
                (d + 87) as char
            },
        );
        r
    }
}

/// The low 48 bits of the time shifted by 32 together with a random number.
pub open spec fn stable_bits(now: u64, random: u64) -> u64 {
    ((now << 32) | random) & 0xffff_ffff_ffff
}

/// The stable identity of a new entity: a unique identifier, or one made of
/// the time and a random number.
pub fn new_stable_entity_id(unique: Option<String>, now: u64, random: u64) -> (r: String)
    ensures
        r@ == (match unique {
            Some(identifier) => identifier@,
            None => "00000000-0000-4000-8000-"@ + hex_digits(
                stable_bits(now, random) as int,
                12,
            ),
        }),
{
    match unique {
        Some(identifier) => identifier,
        None => {
            let bits: u64 = ((now << 32) | random) & 0xffff_ffff_ffff;
            concat("00000000-0000-4000-8000-", &write_hex(bits, 12))
        },
    }
}

/// Whether a list of ids holds an id.
pub fn contains_id(ids: &Vec<u64>, id: u64) -> (r: bool)
    ensures
        r == ids@.contains(id),
{
    let mut i: usize = 0;
    while i < ids.len()
        invariant
            i <= ids@.len(),
            forall|j: int| 0 <= j < i ==> ids@[j] != id,
        decreases ids@.len() - i,
    {
        if ids[i] == id {
            return true;
        }
        i = i + 1;
    }
    false
}

/// The first candidate that is not in use yet.
pub open spec fn first_unused(candidates: Seq<u64>, used: Seq<u64>) -> Option<u64>
    decreases candidates.len(),
{
    if candidates.len() == 0 {
        None
    } else if !used.contains(candidates[0]) {
        Some(candidates[0])
    } else {
        first_unused(candidates.skip(1), used)
    }
}

/// The id for a new entity: the first of the candidates drawn that nothing in
/// the namespace uses. Where all are used, more have to be drawn.
pub fn fresh_entity_id(used: &Vec<u64>, candidates: &Vec<u64>) -> (r: Option<u64>)
    ensures
        r == first_unused(candidates@, used@),
        r matches Some(id) ==> !used@.contains(id) && candidates@.contains(id),
{
    let mut i: usize = 0;
    assert(candidates@.skip(0) =~= candidates@);
    while i < candidates.len()
        invariant
            i <= candidates@.len(),
            first_unused(candidates@, used@) == first_unused(candidates@.skip(i as int), used@),
        decreases candidates@.len() - i,
    {
        assert(candidates@.skip(i as int).skip(1) =~= candidates@.skip(i + 1));
        if !contains_id(used, candidates[i]) {
            return Some(candidates[i]);
        }
        i = i + 1;
    }
    None
}

/// The least id from `seed` upwards that is not in use.
pub open spec fn is_next_free(used: Seq<u64>, seed: u64, id: u64) -> bool {
    &&& seed <= id
    &&& !used.contains(id)
    &&& forall|c: u64| seed <= c < id ==> used.contains(c)
}

proof fn run_fits(used: Seq<u64>, seed: u64, end: int)
    requires
        seed <= end <= u64::MAX,
        forall|c: u64| seed <= c < end ==> used.contains(c),
    ensures
        end - seed <= used.len(),
    decreases end - seed,
{
    if end > seed {
        let last = (end - 1) as u64;
        assert(used.contains(last));
        let i = used.index_of(last);
        let rest = used.remove(i);
        used.remove_ensures(i);
        assert forall|c: u64| seed <= c < end - 1 implies rest.contains(c) by {
            assert(used.contains(c));
            let j = used.index_of(c);
            if j < i {
                assert(rest[j] == c);
            } else {
                assert(rest[j - 1] == c);
            }
        }
        run_fits(rest, seed, end - 1);
    }
}

/// Turns drawn numbers into ids that differ from each other: each is the least
/// free one from its number upwards.
pub fn distinct_ids(seeds: &Vec<u64>) -> (r: Vec<u64>)
    requires
        seeds@.len() <= 0x1_0000_0000,
        forall|i: int| 0 <= i < seeds@.len() ==> seeds@[i] <= 0x20_0000_0000_0000,
    ensures
        r@.len() == seeds@.len(),
        r@.no_duplicates(),
        forall|k: int|
            0 <= k < seeds@.len() ==> is_next_free(r@.take(k), seeds@[k], #[trigger] r@[k]),
{
    let mut out: Vec<u64> = Vec::new();
    let mut i: usize = 0;
    while i < seeds.len()
        invariant
            seeds@.len() <= 0x1_0000_0000,
            forall|i: int| 0 <= i < seeds@.len() ==> seeds@[i] <= 0x20_0000_0000_0000,
            i <= seeds@.len(),
            out@.len() == i,
            out@.no_duplicates(),
            forall|k: int|
                0 <= k < i ==> is_next_free(out@.take(k), seeds@[k], #[trigger] out@[k]),
        decreases seeds@.len() - i,
    {
        let mut candidate: u64 = seeds[i];
        while contains_id(&out, candidate)
            invariant
                i < seeds@.len() <= 0x1_0000_0000,
                out@.len() == i,
                seeds@[i as int] <= 0x20_0000_0000_0000,
                seeds@[i as int] <= candidate,
                candidate - seeds@[i as int] <= out@.len(),
                forall|c: u64| seeds@[i as int] <= c < candidate ==> out@.contains(c),
            decreases out@.len() - (candidate - seeds@[i as int]),
        {
            proof {
                run_fits(out@, seeds@[i as int], candidate + 1);
            }
            candidate = candidate + 1;
        }
        let ghost before = out@;
        out.push(candidate);
        assert forall|k: int| 0 <= k < i + 1 implies is_next_free(
            out@.take(k),
            seeds@[k],
            #[trigger] out@[k],
        ) by {
            assert(out@.take(k) =~= before.take(k));
            if k == i {
                assert(before.take(k) =~= before);
            }
        }
        i = i + 1;
    }
    out
}

/// A guest's principal is the word alone, or the word and an identifier of plain
/// letters, digits, hyphens and underscores.
pub proof fn guests_have_plain_identifiers(identifier: Seq<char>, i: int)
    ensures
        guest_principal_text("guest"@),
        0 < identifier.len() <= 96 && (forall|k: int|
            0 <= k < identifier.len() ==> {
                let c = #[trigger] identifier[k];
                'a' <= c <= 'z' || 'A' <= c <= 'Z' || '0' <= c <= '9' || c == '-' || c == '_'
            }) ==> guest_principal_text("guest:"@ + identifier),
        identifier.len() == 0 || identifier.len() > 96 ==> !guest_principal_text(
            "guest:"@ + identifier,
        ),
        0 <= i < identifier.len() && !is_safe_char(identifier[i]) ==> !guest_principal_text(
            "guest:"@ + identifier,
        ),
        !is_safe_char(' ') && !is_safe_char(':') && !is_safe_char('/') && !is_safe_char(';')
            && !is_safe_char('='),
{
    reveal_strlit("guest");
    reveal_strlit("guest:");
    let whole = "guest:"@ + identifier;
    crate::text::prefixes_can_be_completed(whole, "guest:"@, identifier);
    assert(whole.skip(6) =~= identifier);
    assert(whole.len() >= 6);
    assert("guest"@.len() == 5);
}

/// The guest that is kept is the one of the first store that holds anything, if
/// it names a guest of its own.
pub proof fn the_first_store_counts(
    local: Option<Seq<char>>,
    session: Option<Seq<char>>,
    cookie: Option<Seq<char>>,
)
    ensures
        ({
            let kept = kept_guest(local, session, cookie);
            &&& kept is Some ==> guest_principal_text(kept->0) && kept->0 != "guest"@
            &&& local is Some ==> (kept is None || kept == local)
            &&& local is Some && guest_principal_text(local->0) && local->0 != "guest"@ ==> kept
                == local
            &&& local is None && session is Some ==> (kept is None || kept == session)
            &&& local is None && session is Some && guest_principal_text(session->0) && session->0
                != "guest"@ ==> kept == session
            &&& local is None && session is None && cookie is Some && guest_principal_text(
                cookie->0,
            ) && cookie->0 != "guest"@ ==> kept == cookie
            &&& local is None && session is None ==> (kept is None || kept == cookie)
        }),
{
}

/// A cookie is the first piece with its name and a value; what comes behind the
/// first equals sign is the value, without the blanks around it.
pub proof fn cookies_are_found_by_name(pieces: Seq<Seq<char>>, name: Seq<char>, k: int)
    ensures
        0 <= k < pieces.len() && cookie_piece(pieces[k], name) is Some && (forall|j: int|
            0 <= j < k ==> cookie_piece(#[trigger] pieces[j], name) is None) ==> first_cookie(
            pieces,
            name,
        ) == cookie_piece(pieces[k], name),
        (forall|j: int| 0 <= j < pieces.len() ==> cookie_piece(#[trigger] pieces[j], name) is None)
            ==> first_cookie(pieces, name) is None,
    decreases pieces.len(),
{
    if pieces.len() > 0 && cookie_piece(pieces[0], name) is None {
        let rest = pieces.skip(1);
        cookies_are_found_by_name(rest, name, k - 1);
        if 0 <= k < pieces.len() && cookie_piece(pieces[k], name) is Some && (forall|j: int|
            0 <= j < k ==> cookie_piece(#[trigger] pieces[j], name) is None) {
            assert(k > 0);
            assert(rest[k - 1] == pieces[k]);
            assert forall|j: int| 0 <= j < k - 1 implies cookie_piece(
                #[trigger] rest[j],
                name,
            ) is None by {
                assert(rest[j] == pieces[j + 1]);
            }
        }
        if forall|j: int|
            0 <= j < pieces.len() ==> cookie_piece(#[trigger] pieces[j], name) is None {
            assert forall|j: int| 0 <= j < rest.len() implies cookie_piece(
                #[trigger] rest[j],
                name,
            ) is None by {
                assert(rest[j] == pieces[j + 1]);
            }
        }
    }
}

/// A piece is a cookie of a name where the name, an equals sign and something
/// stand in it.
pub proof fn cookies_have_a_name_and_a_value(piece: Seq<char>, name: Seq<char>, value: Seq<char>)
    requires
        !name.contains('='),
    ensures
        trimmed(piece) == name + seq!['='] + value && !blank(value) ==> cookie_piece(piece, name)
            == Some(trimmed(value)),
        trimmed(piece) == name + seq!['='] + value && blank(value) ==> cookie_piece(piece, name)
            is None,
        !trimmed(piece).contains('=') ==> cookie_piece(piece, name) is None,
        cookie_piece(piece, name) is Some ==> has_prefix(trimmed(piece), name + seq!['=']),
{
    let t = trimmed(piece);
    crate::text::splitting_takes_the_first_sign(t, '=');
    if t == name + seq!['='] + value {
        assert(t[name.len() as int] == '=');
        assert(t.contains('='));
        let (a, b) = split_once_at(t, '=')->0;
        let whole = a + seq!['='] + b;
        if a.len() < name.len() {
            assert(whole[a.len() as int] == '=');
            assert(name[a.len() as int] == '=');
        } else if a.len() > name.len() {
            assert(a[name.len() as int] == whole[name.len() as int]);
        }
        assert(a =~= name) by {
            assert forall|i: int| 0 <= i < name.len() implies a[i] == name[i] by {
                assert(whole[i] == t[i]);
            }
        }
        assert(b =~= value) by {
            assert forall|i: int| 0 <= i < value.len() implies b[i] == value[i] by {
                assert(whole[name.len() + 1 + i] == t[name.len() + 1 + i]);
            }
        }
    }
    if cookie_piece(piece, name) is Some {
        let (a, b) = split_once_at(t, '=')->0;
        assert(t == name + seq!['='] + b);
        assert(t.take((name + seq!['=']).len() as int) =~= name + seq!['=']);
    }
}

/// An identifier is the first candidate that is not in use.
pub proof fn unused_identifiers_are_taken_in_order(candidates: Seq<u64>, used: Seq<u64>, k: int)
    ensures
        0 <= k < candidates.len() && !used.contains(candidates[k]) && (forall|j: int|
            0 <= j < k ==> used.contains(#[trigger] candidates[j])) ==> first_unused(
            candidates,
            used,
        ) == Some(candidates[k]),
        (forall|j: int| 0 <= j < candidates.len() ==> used.contains(#[trigger] candidates[j]))
            ==> first_unused(candidates, used) is None,
    decreases candidates.len(),
{
    if candidates.len() > 0 && used.contains(candidates[0]) {
        let rest = candidates.skip(1);
        unused_identifiers_are_taken_in_order(rest, used, k - 1);
        if 0 <= k < candidates.len() && !used.contains(candidates[k]) && (forall|j: int|
            0 <= j < k ==> used.contains(#[trigger] candidates[j])) {
            assert(k > 0);
            assert(rest[k - 1] == candidates[k]);
            assert forall|j: int| 0 <= j < k - 1 implies used.contains(#[trigger] rest[j]) by {
                assert(rest[j] == candidates[j + 1]);
            }
        }
        if forall|j: int| 0 <= j < candidates.len() ==> used.contains(#[trigger] candidates[j]) {
            assert forall|j: int| 0 <= j < rest.len() implies used.contains(#[trigger] rest[j]) by {
                assert(rest[j] == candidates[j + 1]);
            }
        }
    }
}

/// The number of an entity is never zero and can be held exactly by a browser;
/// a hash that is such a number is kept.
pub proof fn entity_numbers_are_safe(hash: u64)
    ensures
        1 <= entity_number(hash) < 0x20_0000_0000_0000,
        1 <= hash < 0x20_0000_0000_0000 ==> entity_number(hash) == hash,
        hash % 0x20_0000_0000_0000 == 0 ==> entity_number(hash) == 1,
        hash % 0x20_0000_0000_0000 != 0 ==> (hash - entity_number(hash)) % 0x20_0000_0000_0000 == 0,
{
}

/// A number is written in as many hexadecimal digits as asked for, the last one
/// for its remainder by sixteen.
pub proof fn numbers_are_written_in_hexadecimal(n: int, width: nat)
    requires
        0 <= n,
        width > 0,
    ensures
        hex_digits(n, width).len() == width,
        hex_digits(n, width).last() == hex_digit(n % 16),
        hex_digits(n, width).drop_last() == hex_digits(n / 16, (width - 1) as nat),
        0 <= n < 10 ==> hex_digit(n) as u32 == '0' as u32 + n,
        10 <= n < 16 ==> hex_digit(n) as u32 == 'a' as u32 + n - 10,
    decreases width,
{
    if width > 1 {
        numbers_are_written_in_hexadecimal(n / 16, (width - 1) as nat);
    }
    assert(hex_digits(n, width).drop_last() =~= hex_digits(n / 16, (width - 1) as nat));
}

/// A hash goes on where another one stopped: two texts one after the other hash
/// as the one that they make.
pub proof fn hashes_go_on(hash: u64, a: Seq<u8>, b: Seq<u8>, byte: u8)
    ensures
        fnv(fnv(hash, a), b) == fnv(hash, a + b),
        fnv(hash, Seq::empty()) == hash,
        fnv(hash, seq![byte]) as int == ((hash ^ byte as u64) as int * 0x100000001b3)
            % 0x1_0000_0000_0000_0000,
    decreases b.len(),
{
    assert(seq![byte].drop_last() =~= Seq::<u8>::empty());
    assert(fnv(hash, seq![byte].drop_last()) == hash);
    if b.len() == 0 {
        assert(a + b =~= a);
    } else {
        hashes_go_on(hash, a, b.drop_last(), byte);
        assert((a + b).drop_last() =~= a + b.drop_last());
    }
}

/// An entity that has a unique text gets its number from that and the device
/// alone; time and chance count only without one.
pub proof fn unique_entities_need_no_chance(
    unique: Seq<char>,
    device_id: Seq<char>,
    now: u64,
    random: u64,
    later: u64,
    other: u64,
)
    ensures
        unique.len() > 0 ==> entity_seed(unique, device_id, now, random) == entity_seed(
            unique,
            device_id,
            later,
            other,
        ),
        1 <= entity_seed(unique, device_id, now, random) < 0x20_0000_0000_0000,
{
}

/// An identifier made of time and chance gives both back.
pub proof fn stamps_read_back(now: u64, random: u64)
    ensures
        split_once_at(stamp(now, random), '-') == Some(
            (decimal(now as nat), decimal(random as nat)),
        ),
{
    let (a, b) = (decimal(now as nat), decimal(random as nat));
    let s = stamp(now, random);
    reveal_strlit("-");
    crate::text::decimal_digits(now as nat);
    crate::text::first_index_is_least(s, '-');
    let i = crate::text::first_index(s, '-');
    assert(s[a.len() as int] == '-');
    assert forall|j: int| 0 <= j < a.len() implies s[j] != '-' by {
        assert(s[j] == a[j]);
        assert(crate::text::is_digit(a[j]));
    }
    assert(i == a.len());
    assert(s.subrange(0, i) =~= a);
    assert(s.subrange(i + 1, s.len() as int) =~= b);
}

/// The bits of a stable identity are the last sixteen of the time, then the
/// thirty-two of chance.
pub proof fn stable_bits_hold_time_and_chance(now: u64, random: u64)
    requires
        random < 0x1_0000_0000,
    ensures
        stable_bits(now, random) == (now % 0x1_0000) * 0x1_0000_0000 + random,
{
    assert(((now << 32) | random) & 0xffff_ffff_ffff == (now % 0x1_0000) * 0x1_0000_0000 + random)
        by (bit_vector)
        requires
            random < 0x1_0000_0000u64,
    ;
}

/// A free number is the first from the seed on that is not in use.
pub proof fn free_numbers_follow_the_seed(used: Seq<u64>, seed: u64, id: u64, c: u64)
    requires
        is_next_free(used, seed, id),
    ensures
        id >= seed,
        !used.contains(id),
        seed <= c < id ==> used.contains(c),
        !used.contains(seed) ==> id == seed,
{
}

} // verus!
