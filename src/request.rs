//! Answering a trigger request: pick a candidate entry, consult and update
//! the ledger, and build the reply.
use vstd::prelude::*;
use crate::catalog::{Catalog, CatalogEntry, CatalogError, random_index};
use crate::clock::{MIN_TIME, checkpoint_at, checkpoint_secs, is_override_date, now_secs};
use crate::ledger::{Ledger, LedgerModel, assign_step, rolled_over};

verus! {

/// Id of the entry everyone is given on the override date.
pub const OVERRIDE_ID: u32 = 700;

/// The catalog together with the entry forced on the override date.
pub struct Rotation {
    pub catalog: Catalog,
    pub override_id: u32,
}

/// What a request is answered with.
#[derive(Clone, Debug, PartialEq, Eq)]
pub enum Reply {
    /// The user was given an entry just now: its id, name and category, one
    /// of its texts and the address of its image.
    Assigned {
        user: u64,
        id: u32,
        name: String,
        category: String,
        variant: String,
        image_url: String,
    },
    /// The user already holds entry `name` in this window; `text` tells them so.
    Still { user: u64, name: String, text: String },
}

/// Decimal digits.
pub open spec fn digit(d: int) -> char {
    seq!['0', '1', '2', '3', '4', '5', '6', '7', '8', '9'][d]
}

/// The decimal form of `n`, without leading zeros.
pub open spec fn decimal(n: nat) -> Seq<char>
    decreases n,
{
    if n < 10 {
        seq![digit(n as int)]
    } else {
        decimal(n / 10).push(digit((n % 10) as int))
    }
}

/// The decimal form of `n`, padded with zeros on the left to three digits.
pub open spec fn padded3(n: nat) -> Seq<char> {
    let d = decimal(n);
    if d.len() >= 3 {
        d
    } else {
        Seq::new((3 - d.len()) as nat, |i: int| '0') + d
    }
}

/// The address of the image of the entry with id `id`.
pub open spec fn image_url_of(id: nat) -> Seq<char> {
    "http://assets.pokemon.com/assets/cms2/img/pokedex/full/"@ + padded3(id) + ".png"@
}

/// The notice for a user who already holds entry `name`.
pub open spec fn still_text(name: Seq<char>) -> Seq<char> {
    "You are still a "@ + name + ". Try again tomorrow."@
}

/// Relies on `format!` with `{:03}`: the decimal form of `n`, padded with
/// zeros on the left to at least three digits.
#[verifier::external_body]
fn zero_padded(n: u32) -> (r: String)
    ensures
        r@ == padded3(n as nat),
{
    format!("{:03}", n)
}

/// The id in three or more digits, as it is shown to users.
pub fn padded_id(id: u32) -> (r: String)
    ensures
        r@ == padded3(id as nat),
{
    zero_padded(id)
}

/// The address of the image of the entry with id `id`.
pub fn image_url(id: u32) -> (r: String)
    ensures
        r@ == image_url_of(id as nat),
{
    let digits = zero_padded(id);
    let base = String::from_str("http://assets.pokemon.com/assets/cms2/img/pokedex/full/");
    let with_digits = base.concat(digits.as_str());
    with_digits.concat(".png")
}

/// The notice for a user who already holds entry `name`.
pub fn still_message(name: &str) -> (r: String)
    ensures
        r@ == still_text(name@),
{
    let head = String::from_str("You are still a ");
    let with_name = head.concat(name);
    with_name.concat(". Try again tomorrow.")
}

/// The reply to a user who already holds entry `name`.
pub fn still_reply(user: u64, name: String) -> (r: Reply)
    ensures
        r matches Reply::Still { user: u, name: n, text } && u == user && n == name && text@
            == still_text(name@),
{
    let text = still_message(name.as_str());
    Reply::Still { user, name, text }
}

/// The reply to a user just given `entry`, showing its text at
/// `variant_index`.
pub fn assigned_reply(user: u64, entry: &CatalogEntry, variant_index: usize) -> (r: Reply)
    requires
        variant_index < entry.variants@.len(),
    ensures
        r matches Reply::Assigned { user: u, id, name, category, variant, image_url } && u == user
            && id == entry.id && name == entry.name && category == entry.category && variant
            == entry.variants@[variant_index as int] && image_url@ == image_url_of(entry.id as nat),
{
    Reply::Assigned {
        user,
        id: entry.id,
        name: entry.name.clone(),
        category: entry.category.clone(),
        variant: entry.variant(variant_index).clone(),
        image_url: image_url(entry.id),
    }
}

impl Rotation {
    /// A valid catalog, and an override id that names one of its entries.
    pub open spec fn wf(&self) -> bool {
        &&& self.catalog.wf()
        &&& 1 <= self.override_id <= self.catalog@.len()
    }

    /// Pairs a catalog with its override entry; `NotFound` when the catalog
    /// has no entry with that id.
    pub fn new(catalog: Catalog, override_id: u32) -> (r: Result<Rotation, CatalogError>)
        requires
            catalog.wf(),
        ensures
            r is Ok <==> 1 <= override_id <= catalog@.len(),
            r matches Ok(rot) ==> rot.wf() && rot.catalog@ == catalog@ && rot.override_id
                == override_id,
            r matches Err(e) ==> e == (CatalogError::NotFound { id: override_id }),
    {
        match catalog.get(override_id) {
            Ok(_) => Ok(Rotation { catalog, override_id }),
            Err(e) => Err(e),
        }
    }

    /// Position of the candidate entry: the override entry on the override
    /// date, else the drawn position `roll`.
    pub open spec fn candidate_index(&self, override_today: bool, roll: int) -> int {
        if override_today {
            self.override_id - 1
        } else {
            roll
        }
    }

    /// The candidate entry for a request.
    pub fn candidate(&self, override_today: bool, roll: usize) -> (r: &CatalogEntry)
        requires
            self.wf(),
            roll < self.catalog@.len(),
        ensures
            *r == self.catalog@[self.candidate_index(override_today, roll as int)],
    {
        if override_today {
            self.catalog.entry((self.override_id - 1) as usize)
        } else {
            self.catalog.entry(roll)
        }
    }

    /// The ledger step of a request by `user` at Unix time `now`, with the
    /// drawn position `roll`: `None` when the user was just given the
    /// candidate, `Some(name)` when they already held `name`.
    pub fn decide(
        &self,
        ledger: &mut Ledger,
        user: u64,
        now: i64,
        override_today: bool,
        roll: usize,
    ) -> (r: Option<String>)
        requires
            self.wf(),
            roll < self.catalog@.len(),
            MIN_TIME <= now,
        ensures
            (final(ledger)@, r) == assign_step(
                old(ledger)@,
                user,
                checkpoint_secs(now as int),
                self.catalog@[self.candidate_index(override_today, roll as int)].name,
            ),
    {
        let entry = self.candidate(override_today, roll);
        let epoch = checkpoint_at(now);
        ledger.assign(user, epoch, &entry.name)
    }

    /// Answers a trigger request from `user` by the system clock and random
    /// draws: a user who already holds an entry in the current window is
    /// told its name; anyone else is given the candidate entry, with one of
    /// its texts drawn at random.
    pub fn handle_request(&self, ledger: &mut Ledger, user: u64) -> (r: Reply)
        requires
            self.wf(),
        ensures
            final(ledger)@.0 >= old(ledger)@.0,
            final(ledger)@.1.contains_key(user),
            r matches Reply::Still { user: u, name, text } ==> u == user && final(ledger)@
                == old(ledger)@ && name == final(ledger)@.1[user] && text@ == still_text(name@),
            r matches Reply::Assigned { user: u, id, name, category, variant, image_url } ==> {
                let entry = self.catalog@[id - 1];
                &&& u == user
                &&& 1 <= id <= self.catalog@.len()
                &&& name == entry.name && category == entry.category
                &&& entry.variants@.contains(variant)
                &&& image_url@ == image_url_of(id as nat)
                &&& final(ledger)@.1 == if final(ledger)@.0 > old(ledger)@.0 {
                    Map::<u64, String>::empty().insert(user, name)
                } else {
                    old(ledger)@.1.insert(user, name)
                }
                &&& final(ledger)@.0 == old(ledger)@.0 ==> !old(ledger)@.1.contains_key(user)
            },
    {
        let now = now_secs();
        let override_today = is_override_date(now);
        let roll = random_index(self.catalog.len());
        match self.decide(ledger, user, now, override_today, roll) {
            Some(name) => still_reply(user, name),
            None => {
                let entry = self.candidate(override_today, roll);
                let v = random_index(entry.variants.len());
                assigned_reply(user, entry, v)
            },
        }
    }
}

/// On the override date a user who holds no entry in the window is given the
/// override entry, whatever position was drawn: the outcome does not depend
/// on the draw.
pub proof fn lemma_override_ignores_draw(
    rot: Rotation,
    s: LedgerModel,
    user: u64,
    e: int,
    roll1: int,
    roll2: int,
)
    requires
        rot.wf(),
        !rolled_over(s, e).1.contains_key(user),
    ensures
        ({
            let (s1, r1) = assign_step(s, user, e, rot.catalog@[rot.candidate_index(true, roll1)].name);
            &&& (s1, r1) == assign_step(s, user, e, rot.catalog@[rot.candidate_index(true, roll2)].name)
            &&& r1 is None
            &&& s1.1[user] == rot.catalog@[rot.override_id - 1].name
            &&& rot.catalog@[rot.override_id - 1].id == rot.override_id
        }),
{
}

} // verus!
