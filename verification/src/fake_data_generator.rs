//! Decoy entries for a duress session: plausible rows drawn at random from a
//! fixed catalogue, or numbered placeholders.

use crate::entries::{Entry, Fields, PlainEntry};
use crate::store::models;
use rand::Rng;
use vstd::prelude::*;
use vstd::string::StringExecFns;

verus! {

/// Number of rows in the catalogue.
pub const CATALOGUE_LEN: usize = 51;

/// The catalogue of decoys: service, login, password and note.
pub const CATALOGUE: [(&'static str, &'static str, &'static str, &'static str); 51] = [
    ("Google", "michael.j.rivers87@gmail.com", "SunnyHills2023!", "Main email"),
    ("Apple ID", "michael.rivers@icloud.com", "iCloud!Vault2024", "iPhone & Mac"),
    ("Microsoft", "m.rivers@outlook.com", "Office365!2025", "Work & personal"),
    ("Yahoo Mail", "mike_rivers2000@yahoo.com", "OldMail!Secure22", "Backup email"),
    ("Facebook", "michael.rivers.39", "FamilyMoments2024", "Friends & family"),
    ("Instagram", "mike.rivers.adventures", "InstaVibes!2025", "Travel photos"),
    ("TikTok", "@mikeriverslife", "TikTokTrendz24!", "Short videos"),
    ("Snapchat", "m.rivers.snap", "SnapBack2024!", "Daily snaps"),
    ("WhatsApp", "+1 (716) 555-0192", "ChatSecure!2025", "Primary messenger"),
    ("Telegram", "@MikeRiversReal", "TG!Secret2024", "Private groups"),
    ("Discord", "MikeRivers#7482", "Discord!Gaming25", "Gaming & friends"),
    ("Chase", "m.rivers85", "ChaseSecure!2025", "Checking + Savings"),
    ("Bank of America", "mriversboa", "BoA!Vault2024", "Main account"),
    ("Wells Fargo", "michael.wf", "Wells!Safe2023", "Mortgage"),
    ("Capital One", "mikerivers.cap", "VentureX!2025", "Credit card"),
    ("American Express", "m.rivers.amex", "Platinum!Rewards24", "Premium card"),
    ("PayPal", "michael.rivers@paypal.com", "PaySafe!2025", "Online payments"),
    ("Venmo", "mikerivers", "Venmo!Quick24", "Friends payments"),
    ("Cash App", "$MikeRivers87", "CashTag!2025", "Quick transfers"),
    ("Amazon", "mikeriversprime", "PrimeMember!2026", "Prime account"),
    ("Walmart", "m.rivers.walmart", "Walmart+2025", "Online grocery"),
    ("Target", "michael.target", "RedCard!Rewards24", "Circle rewards"),
    ("eBay", "mikerivers.seller", "eBayPro!2024", "Selling account"),
    ("Etsy", "rivershandmade", "EtsyShop!2025", "Handmade purchases"),
    ("DoorDash", "m.rivers.dash", "DashPass!2025", "Food delivery"),
    ("Uber Eats", "michael.ubereats", "EatsPass!2024", "Food orders"),
    ("Netflix", "rivers.family", "WatchParty2025!", "Family profile"),
    ("Disney+", "mikerivers.disney", "MagicKingdom!24", "Disney content"),
    ("Hulu", "michael.hulu", "NoAds2025!", "Live TV + streaming"),
    ("YouTube Premium", "m.rivers.yt", "NoAdsTube!2025", "Ad-free viewing"),
    ("Spotify", "michaelrivers.music", "FamilyPlan!2026", "Music + podcasts"),
    ("Twitch", "mikerivers_tv", "Sub4Life!2024", "Streaming follows"),
    ("Delta Airlines", "m.rivers.delta", "SkyMiles!Elite25", "Frequent flyer"),
    ("United Airlines", "mrivers.united", "MileagePlus2025", "Travel rewards"),
    ("Airbnb", "mikerivers.host", "HostPro!2025", "Hosting & stays"),
    ("Uber", "m.rivers.uber", "UberOne!2025", "Rides & eats"),
    ("Lyft", "michael.lyft", "PinkPass!2024", "Alternative rides"),
    ("LinkedIn", "michael-rivers-mba", "CareerPath!2025", "Professional network"),
    ("Work Email", "michael.rivers@techsolutions.io", "Corp!Secure2026", "Office 365"),
    ("Slack", "m.rivers", "TeamChat!2025", "Work communication"),
    ("Notion", "mikerivers.notion", "LifeOS!2025", "All-in-one workspace"),
    ("Zoom", "m.rivers.zoom", "MeetingPro!2025", "Video conferencing"),
    ("Steam", "MikeRivers87", "SteamDeck!2025", "Game library"),
    ("PlayStation Network", "MikeRivers_PS5", "PSPlus!Extra24", "PS5 account"),
    ("Xbox Live", "MikeRivers_Xbox", "GamePass!Ultimate25", "Xbox gaming"),
    ("Epic Games", "mikerivers.epic", "Fortnite!2025", "Fortnite & Unreal"),
    ("Reddit", "u/mikerivers_tech", "Lurker!2025", "Tech & memes"),
    ("GitHub", "mikerivers-dev", "CodeSafe!2025", "Personal projects"),
    ("Dropbox", "michael.rivers", "FamilyBackup!24", "File storage"),
    ("1Password", "m.rivers.1pw", "MetaPassword!2025", "Irony password manager :D"),
    ("Coinbase", "mikerivers.crypto", "HODL2025!", "Crypto wallet"),
];

/// The fields of the catalogue's row `k`.
pub open spec fn catalogue_fields(k: int) -> Fields {
    Fields {
        service: CATALOGUE@[k].0@,
        login: CATALOGUE@[k].1@,
        password: CATALOGUE@[k].2@,
        note: CATALOGUE@[k].3@,
    }
}

/// Whether `list` is `picks` read off the catalogue: entry `i` is the row
/// `picks[i]`, under the id `-(i + 1)`.
pub open spec fn reads_catalogue(list: Seq<PlainEntry>, picks: Seq<int>) -> bool {
    &&& picks.len() == list.len()
    &&& forall|i: int|
        0 <= i < list.len() ==> {
            &&& 0 <= #[trigger] picks[i] < CATALOGUE_LEN
            &&& list[i].id == -(i + 1)
            &&& list[i].fields() == catalogue_fields(picks[i])
        }
}

/// Whether `list` is a list of decoys for a request of `count`: as many rows
/// as asked for, at most the whole catalogue, no row of the catalogue twice,
/// under the ids -1, -2, and so on.
pub open spec fn is_decoy_list(list: Seq<PlainEntry>, count: nat) -> bool {
    &&& list.len() == if count < CATALOGUE_LEN {
        count
    } else {
        CATALOGUE_LEN as nat
    }
    &&& exists|picks: Seq<int>| picks.no_duplicates() && #[trigger] reads_catalogue(list, picks)
}

/// The decimal digit `d`.
pub open spec fn digit(d: nat) -> char {
    if d == 0 {
        '0'
    } else if d == 1 {
        '1'
    } else if d == 2 {
        '2'
    } else if d == 3 {
        '3'
    } else if d == 4 {
        '4'
    } else if d == 5 {
        '5'
    } else if d == 6 {
        '6'
    } else if d == 7 {
        '7'
    } else if d == 8 {
        '8'
    } else {
        '9'
    }
}

/// The decimal notation of `n`, without leading zeros.
pub open spec fn decimal(n: nat) -> Seq<char>
    decreases n,
{
    if n < 10 {
        seq![digit(n)]
    } else {
        decimal(n / 10).push(digit(n % 10))
    }
}

/// The placeholder with the index `i`, counted from 0.
pub open spec fn placeholder(i: int) -> PlainEntry {
    let number = decimal((i + 1) as nat);
    PlainEntry {
        id: -(i + 1),
        service: "Service "@ + number,
        login: "user"@ + number + "@example.com"@,
        password: "password"@ + number,
        note: "No real data stored here"@,
    }
}

/// Whether `list` is the first `count` placeholders.
pub open spec fn is_placeholder_list(list: Seq<PlainEntry>, count: nat) -> bool {
    &&& list.len() == count
    &&& forall|i: int| 0 <= i < list.len() ==> #[trigger] list[i] == placeholder(i)
}

/// Calls `Rng::gen_range` on `rand::thread_rng()` with the range
/// `low..high`.
///
/// Trusted: the number lies in the range. The crate panics on an empty range,
/// which `requires` leaves out. Nothing is said of which number it is. The
/// call stops the program where the operating system gives no random bytes:
/// a failure of the machine, which no `requires` can leave out.
#[verifier::external_body]
fn random_index(low: usize, high: usize) -> (i: usize)
    requires
        low < high,
    ensures
        low <= i < high,
{
    rand::thread_rng().gen_range(low..high)
}

/// One decimal digit as text.
fn digit_text(d: usize) -> (text: &'static str)
    requires
        d < 10,
    ensures
        text@ == seq![digit(d as nat)],
{
    proof {
        reveal_strlit("0");
        reveal_strlit("1");
        reveal_strlit("2");
        reveal_strlit("3");
        reveal_strlit("4");
        reveal_strlit("5");
        reveal_strlit("6");
        reveal_strlit("7");
        reveal_strlit("8");
        reveal_strlit("9");
    }
    let text = if d == 0 {
        "0"
    } else if d == 1 {
        "1"
    } else if d == 2 {
        "2"
    } else if d == 3 {
        "3"
    } else if d == 4 {
        "4"
    } else if d == 5 {
        "5"
    } else if d == 6 {
        "6"
    } else if d == 7 {
        "7"
    } else if d == 8 {
        "8"
    } else {
        "9"
    };
    assert(text@ =~= seq![digit(d as nat)]);
    text
}

/// Writes `n` in decimal notation.
pub fn decimal_text(n: usize) -> (text: String)
    ensures
        text@ == decimal(n as nat),
    decreases n,
{
    if n < 10 {
        digit_text(n).to_owned()
    } else {
        let mut text = decimal_text(n / 10);
        text.append(digit_text(n % 10));
        assert(text@ =~= decimal((n / 10) as nat).push(digit((n % 10) as nat)));
        text
    }
}

/// Draws `count` decoys from the catalogue, at most all of it, without taking
/// a row twice, and numbers them -1, -2, and so on.
pub fn generate_fake_entries(count: usize) -> (entries: Vec<Entry>)
    ensures
        is_decoy_list(models(entries@), count as nat),
{
    let wanted: usize = if count < CATALOGUE_LEN {
        count
    } else {
        CATALOGUE_LEN
    };
    let mut order: Vec<usize> = Vec::new();
    let mut k: usize = 0;
    while k < CATALOGUE_LEN
        invariant
            k <= CATALOGUE_LEN,
            order@.len() == k,
            forall|a: int| 0 <= a < k ==> order@[a] == a,
        decreases CATALOGUE_LEN - k,
    {
        order.push(k);
        k = k + 1;
    }
    let mut i: usize = 0;
    while i < wanted
        invariant
            i <= wanted <= CATALOGUE_LEN,
            order@.len() == CATALOGUE_LEN,
            forall|a: int| 0 <= a < order@.len() ==> order@[a] < CATALOGUE_LEN,
            forall|a: int, b: int| 0 <= a < b < order@.len() ==> order@[a] != order@[b],
        decreases wanted - i,
    {
        let j = random_index(i, CATALOGUE_LEN);
        let first = order[i];
        let second = order[j];
        order.set(i, second);
        order.set(j, first);
        i = i + 1;
    }
    let mut entries: Vec<Entry> = Vec::new();
    let mut idx: usize = 0;
    while idx < wanted
        invariant
            idx <= wanted <= CATALOGUE_LEN,
            order@.len() == CATALOGUE_LEN,
            forall|a: int| 0 <= a < order@.len() ==> order@[a] < CATALOGUE_LEN,
            entries@.len() == idx,
            forall|a: int|
                0 <= a < idx ==> {
                    &&& (#[trigger] entries@[a])@.id == -(a + 1)
                    &&& entries@[a]@.fields() == catalogue_fields(order@[a] as int)
                },
        decreases wanted - idx,
    {
        let row = CATALOGUE[order[idx]];
        let entry = Entry {
            id: -(idx as i64 + 1),
            service: row.0.to_owned(),
            login: row.1.to_owned(),
            password: row.2.to_owned(),
            note: row.3.to_owned(),
        };
        entries.push(entry);
        idx = idx + 1;
    }
    proof {
        let list = models(entries@);
        let picks = Seq::new(wanted as nat, |a: int| order@[a] as int);
        assert(picks.no_duplicates());
        assert(reads_catalogue(list, picks));
    }
    entries
}

/// Makes `count` numbered placeholders: "Service 1", "Service 2", and so on.
pub fn generate_empty_fake_entries(count: usize) -> (entries: Vec<Entry>)
    requires
        count <= i64::MAX,
    ensures
        is_placeholder_list(models(entries@), count as nat),
{
    let mut entries: Vec<Entry> = Vec::new();
    let mut i: usize = 0;
    while i < count
        invariant
            i <= count <= i64::MAX,
            entries@.len() == i,
            forall|a: int| 0 <= a < i ==> (#[trigger] entries@[a])@ == placeholder(a),
        decreases count - i,
    {
        let number = decimal_text(i + 1);
        let mut service = "Service ".to_owned();
        service.append(number.as_str());
        let mut login = "user".to_owned();
        login.append(number.as_str());
        login.append("@example.com");
        let mut password = "password".to_owned();
        password.append(number.as_str());
        let entry = Entry {
            id: -(i as i64 + 1),
            service,
            login,
            password,
            note: "No real data stored here".to_owned(),
        };
        entries.push(entry);
        i = i + 1;
    }
    entries
}

/// Makes the decoys that a duress session of a user is shown: drawn from the
/// catalogue where `show_realistic` is set, numbered placeholders otherwise.
pub fn generate_fake_entries_for_user(_user_id: i64, show_realistic: bool, count: usize) -> (entries:
    Vec<Entry>)
    requires
        !show_realistic ==> count <= i64::MAX,
    ensures
        show_realistic ==> is_decoy_list(models(entries@), count as nat),
        !show_realistic ==> is_placeholder_list(models(entries@), count as nat),
{
    if show_realistic {
        generate_fake_entries(count)
    } else {
        generate_empty_fake_entries(count)
    }
}

} // verus!
