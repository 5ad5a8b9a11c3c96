//! The store in which wishes are kept: accounts addressed by key, each
//! allocated at most once, and the creation of a wish in it.
use crate::address::Address;
use crate::record::{
    lemma_layout_fills_space, lemma_layout_round_trip, parse_wish, parsed_view, space_for,
    wish_layout, wish_space, AWish, WishView, AUTHOR_LEN, TAG_LEN, TIMESTAMP_LEN,
    TITLE_LEN_PREFIX,
};
use crate::runtime::{clock_unix_timestamp, found_view, program_address_of, try_find_program_address};
use vstd::prelude::*;
use vstd::slice::slice_to_vec;
use vstd::string::StringSliceAdditionalSpecFns;
use vstd::utf8::encode_utf8;

verus! {

/// Why a wish could not be created.
#[derive(Clone, Copy, Debug, PartialEq, Eq, Structural)]
pub enum ErrorCode {
    /// The title is empty.
    EmptyTitle,
    /// A wish with the same author and title is already stored.
    DuplicateRecord,
    /// No address can be derived for this author and title (a title longer
    /// than 32 bytes is one such case).
    AddressNotFound,
    /// The runtime's clock could not be read.
    ClockUnavailable,
}

/// The bytes of this program's id, `9xQeWvG816bUx9EPjHmaT23yvVM2ZWbrrpZb9PusVFin`
/// in base 58.
pub open spec fn program_id_bytes() -> Seq<u8> {
    seq![133u8, 15, 45, 110, 2, 164, 122, 248, 36, 208, 154, 182, 157, 196, 45, 112, 203, 40, 203, 250, 36, 159, 183, 238, 87, 185, 210, 86, 193, 39, 98, 239]
}

/// This program's id.
pub fn id() -> (r: Address)
    ensures
        r@ == program_id_bytes(),
{
    let r = Address { bytes: [133u8, 15, 45, 110, 2, 164, 122, 248, 36, 208, 154, 182, 157, 196, 45, 112, 203, 40, 203, 250, 36, 159, 183, 238, 87, 185, 210, 86, 193, 39, 98, 239] };
    assert(r@ =~= program_id_bytes());
    r
}

/// The first seed of every wish address.
pub open spec fn wish_seed() -> Seq<u8> {
    "wish".spec_bytes()
}

/// The seeds from which the address of a wish is derived: a fixed tag, the
/// author, and the title's UTF-8 bytes, in that order.
pub open spec fn wish_seeds(author: Seq<u8>, title: Seq<char>) -> Seq<Seq<u8>> {
    seq![wish_seed(), author, encode_utf8(title)]
}

/// The address (and bump seed) at which the wish of `author` titled `title` is
/// kept by the program `program_id`.
pub open spec fn wish_address(program_id: Seq<u8>, author: Seq<u8>, title: Seq<char>) -> Option<
    (Seq<u8>, u8),
> {
    program_address_of(wish_seeds(author, title), program_id)
}

/// Derives the address at which the wish of `author` titled `title` is kept.
pub fn derive_key(program_id: &Address, author: &Address, title: &str) -> (r: Option<(Address, u8)>)
    ensures
        found_view(r) == wish_address(program_id@, author@, title@),
        encode_utf8(title@).len() > 32 ==> r is None,
{
    let mut seeds: Vec<Vec<u8>> = Vec::new();
    seeds.push(slice_to_vec("wish".as_bytes()));
    seeds.push(slice_to_vec(author.bytes.as_slice()));
    seeds.push(slice_to_vec(title.as_bytes()));
    assert(seeds@[0].deep_view() =~= wish_seed());
    assert(seeds@[1].deep_view() =~= author@);
    assert(seeds@[2].deep_view() =~= encode_utf8(title@));
    assert(seeds.deep_view() =~= wish_seeds(author@, title@));
    try_find_program_address(&seeds, program_id)
}

/// The accounts that the creation of one wish works on: the author, who signs
/// and pays, and the address at which the wish is kept, with its bump seed
/// and the number of bytes to allocate there.
#[derive(Clone, Copy, Debug)]
pub struct CreateWish {
    pub author: Address,
    pub wish: Address,
    pub bump: u8,
    pub space: usize,
}

impl CreateWish {
    /// Resolves the accounts for the wish of `author` titled `title`.
    pub fn new(program_id: &Address, author: &Address, title: &str) -> (r: Result<
        CreateWish,
        ErrorCode,
    >)
        ensures
            r is Ok <==> wish_address(program_id@, author@, title@) is Some,
            r matches Err(e) ==> e == ErrorCode::AddressNotFound,
            r matches Ok(c) ==> {
                &&& wish_address(program_id@, author@, title@) == Some((c.wish@, c.bump))
                &&& c.author@ == author@
                &&& c.space == wish_space(encode_utf8(title@).len() as int)
                &&& encode_utf8(title@).len() <= 32
            },
    {
        match derive_key(program_id, author, title) {
            None => Err(ErrorCode::AddressNotFound),
            Some((wish, bump)) => {
                Ok(CreateWish { author: *author, wish, bump, space: space_for(title) })
            },
        }
    }
}

/// One account of the store.
pub struct Account {
    pub key: Address,
    pub payer: Address,
    pub data: Vec<u8>,
}

/// What an account holds, as the contracts speak of it.
pub struct AccountView {
    pub key: Seq<u8>,
    pub payer: Seq<u8>,
    pub data: Seq<u8>,
}

impl View for Account {
    type V = AccountView;

    open spec fn view(&self) -> AccountView {
        AccountView { key: self.key@, payer: self.payer@, data: self.data@ }
    }
}

/// The store of one program: its accounts, in the order in which they were
/// allocated.
pub struct Ledger {
    program_id: Address,
    accounts: Vec<Account>,
}

/// What a store holds, as the contracts speak of it.
pub struct LedgerView {
    pub program_id: Seq<u8>,
    pub accounts: Seq<AccountView>,
}

impl LedgerView {
    /// Whether an account is kept at `key`.
    pub open spec fn holds(self, key: Seq<u8>) -> bool {
        exists|i: int| 0 <= i < self.accounts.len() && #[trigger] self.accounts[i].key == key
    }

    /// No two accounts share a key.
    pub open spec fn wf(self) -> bool {
        forall|i: int, j: int|
            0 <= i < j < self.accounts.len() ==> #[trigger] self.accounts[i].key
                != #[trigger] self.accounts[j].key
    }

    /// The bytes of the account kept at `key`.
    pub open spec fn data_at(self, key: Seq<u8>) -> Seq<u8> {
        self.accounts[choose|i: int|
            0 <= i < self.accounts.len() && #[trigger] self.accounts[i].key == key].data
    }

    /// The store with one more account, at `key`, paid by `payer`, holding
    /// `data`.
    pub open spec fn with_account(self, key: Seq<u8>, payer: Seq<u8>, data: Seq<u8>) -> LedgerView {
        LedgerView {
            program_id: self.program_id,
            accounts: self.accounts.push(AccountView { key, payer, data }),
        }
    }
}

/// In a store where keys are unique, the account at position `i` is the one
/// that `data_at` speaks of for its key.
proof fn lemma_found_data(l: LedgerView, key: Seq<u8>, i: int)
    requires
        l.wf(),
        0 <= i < l.accounts.len(),
        l.accounts[i].key == key,
    ensures
        l.holds(key),
        l.data_at(key) == l.accounts[i].data,
{
    let j = choose|j: int| 0 <= j < l.accounts.len() && #[trigger] l.accounts[j].key == key;
    assert(l.accounts[j].key == key);
    if i < j {
        assert(l.accounts[i].key != l.accounts[j].key);
    } else if j < i {
        assert(l.accounts[j].key != l.accounts[i].key);
    }
}

impl View for Ledger {
    type V = LedgerView;

    closed spec fn view(&self) -> LedgerView {
        LedgerView {
            program_id: self.program_id@,
            accounts: self.accounts@.map_values(|a: Account| a@),
        }
    }
}

/// What creating the wish of `author` titled `title` at time `now` does to the
/// store `l`: the store afterwards, and the wish created or the error.
pub open spec fn create_outcome(l: LedgerView, author: Seq<u8>, title: Seq<char>, now: i64) -> (
    LedgerView,
    Result<WishView, ErrorCode>,
) {
    if title.len() == 0 {
        (l, Err(ErrorCode::EmptyTitle))
    } else {
        match wish_address(l.program_id, author, title) {
            None => (l, Err(ErrorCode::AddressNotFound)),
            Some((key, _bump)) => {
                if l.holds(key) {
                    (l, Err(ErrorCode::DuplicateRecord))
                } else {
                    let w = WishView { title, timestamp: now, author };
                    (l.with_account(key, author, wish_layout(w)), Ok(w))
                }
            },
        }
    }
}

/// The view of the result of a creation.
pub open spec fn created_view(r: Result<AWish, ErrorCode>) -> Result<WishView, ErrorCode> {
    match r {
        Ok(w) => Ok(w@),
        Err(e) => Err(e),
    }
}

impl Ledger {
    /// No two accounts share a key.
    #[verifier::type_invariant]
    spec fn keys_unique(&self) -> bool {
        self@.wf()
    }

    /// An empty store for the program `program_id`.
    pub fn new(program_id: Address) -> (r: Ledger)
        ensures
            r@.program_id == program_id@,
            r@.accounts.len() == 0,
            r@.wf(),
    {
        let r = Ledger { program_id, accounts: Vec::new() };
        assert(r@.accounts =~= Seq::<AccountView>::empty());
        r
    }

    /// The program whose store this is.
    pub fn program_id(&self) -> (r: Address)
        ensures
            r@ == self@.program_id,
    {
        self.program_id
    }

    /// The number of accounts kept.
    pub fn len(&self) -> (r: usize)
        ensures
            r == self@.accounts.len(),
    {
        self.accounts.len()
    }

    /// The position of the account kept at `key`, if any.
    fn find(&self, key: &Address) -> (r: Option<usize>)
        ensures
            match r {
                Some(i) => i < self@.accounts.len() && self@.accounts[i as int].key == key@,
                None => !self@.holds(key@),
            },
    {
        let mut i: usize = 0;
        while i < self.accounts.len()
            invariant
                i <= self.accounts@.len(),
                forall|j: int| 0 <= j < i ==> #[trigger] self@.accounts[j].key != key@,
            decreases self.accounts@.len() - i,
        {
            if self.accounts[i].key.same_as(key) {
                return Some(i);
            }
            i = i + 1;
        }
        None
    }

    /// Whether an account is kept at `key`.
    pub fn contains(&self, key: &Address) -> (r: bool)
        ensures
            r == self@.holds(key@),
    {
        self.find(key).is_some()
    }

    /// The bytes of the account kept at `key`, if any.
    pub fn account_data(&self, key: &Address) -> (r: Option<Vec<u8>>)
        ensures
            r is Some <==> self@.holds(key@),
            r matches Some(d) ==> d@ == self@.data_at(key@),
    {
        match self.find(key) {
            None => None,
            Some(i) => {
                proof {
                    use_type_invariant(self);
                    lemma_found_data(self@, key@, i as int);
                }
                Some(slice_to_vec(self.accounts[i].data.as_slice()))
            },
        }
    }

    /// The wish stored at `key`, if an account is kept there and holds a
    /// well-formed wish record.
    pub fn read_wish(&self, key: &Address) -> (r: Option<AWish>)
        ensures
            parsed_view(r) == if self@.holds(key@) {
                parse_wish(self@.data_at(key@))
            } else {
                None
            },
    {
        match self.find(key) {
            None => None,
            Some(i) => {
                proof {
                    use_type_invariant(self);
                    lemma_found_data(self@, key@, i as int);
                }
                AWish::from_bytes(self.accounts[i].data.as_slice())
            },
        }
    }

    /// Allocates a zero-filled account of `space` bytes at `key`, paid by
    /// `payer`, and returns its position; fails if an account is kept there
    /// already.
    fn allocate(&mut self, key: &Address, space: usize, payer: &Address) -> (r: Result<
        usize,
        ErrorCode,
    >)
        ensures
            r is Err <==> old(self)@.holds(key@),
            r matches Err(e) ==> e == ErrorCode::DuplicateRecord && final(self)@ == old(self)@,
            r matches Ok(h) ==> h == old(self)@.accounts.len() && final(self)@ == old(
                self,
            )@.with_account(
                key@,
                payer@,
                Seq::new(space as nat, |i: int| 0u8),
            ),
    {
        proof {
            use_type_invariant(&*self);
        }
        if self.find(key).is_some() {
            return Err(ErrorCode::DuplicateRecord);
        }
        let mut data: Vec<u8> = Vec::new();
        let mut i: usize = 0;
        while i < space
            invariant
                i <= space,
                data@ == Seq::new(i as nat, |j: int| 0u8),
            decreases space - i,
        {
            data.push(0u8);
            i = i + 1;
            assert(data@ =~= Seq::new(i as nat, |j: int| 0u8));
        }
        let handle = self.accounts.len();
        let mut accounts: Vec<Account> = Vec::new();
        std::mem::swap(&mut accounts, &mut self.accounts);
        accounts.push(Account { key: *key, payer: *payer, data });
        let ghost grown = old(self)@.with_account(key@, payer@, data@);
        assert(accounts@.map_values(|a: Account| a@) =~= grown.accounts);
        assert forall|i: int, j: int| 0 <= i < j < grown.accounts.len() implies #[trigger] grown.accounts[i].key
            != #[trigger] grown.accounts[j].key by {
            if j == old(self)@.accounts.len() {
                assert(old(self)@.accounts[i].key == grown.accounts[i].key);
            }
        }
        self.accounts = accounts;
        Ok(handle)
    }

    /// Writes `data` into the account at position `handle`, whose size it
    /// matches.
    fn write(&mut self, handle: usize, data: Vec<u8>)
        requires
            handle < old(self)@.accounts.len(),
            data@.len() == old(self)@.accounts[handle as int].data.len(),
        ensures
            final(self)@ == (LedgerView {
                program_id: old(self)@.program_id,
                accounts: old(self)@.accounts.update(
                    handle as int,
                    AccountView {
                        key: old(self)@.accounts[handle as int].key,
                        payer: old(self)@.accounts[handle as int].payer,
                        data: data@,
                    },
                ),
            }),
    {
        proof {
            use_type_invariant(&*self);
        }
        let key = self.accounts[handle].key;
        let payer = self.accounts[handle].payer;
        let mut accounts: Vec<Account> = Vec::new();
        std::mem::swap(&mut accounts, &mut self.accounts);
        accounts.set(handle, Account { key, payer, data });
        let ghost updated = accounts@.map_values(|a: Account| a@);
        assert forall|i: int| 0 <= i < updated.len() implies #[trigger] updated[i].key
            == old(self)@.accounts[i].key by {}
        self.accounts = accounts;
        assert(self@.accounts =~= old(self)@.accounts.update(
            handle as int,
            AccountView {
                key: old(self)@.accounts[handle as int].key,
                payer: old(self)@.accounts[handle as int].payer,
                data: data@,
            },
        ));
    }
}

/// The wish of `author` titled `title`, stamped with the time `now`; an empty
/// title is refused.
pub fn new_wish(author: &Address, title: String, now: i64) -> (r: Result<AWish, ErrorCode>)
    ensures
        r is Err <==> title@.len() == 0,
        r matches Err(e) ==> e == ErrorCode::EmptyTitle,
        r matches Ok(w) ==> w@ == (WishView { title: title@, timestamp: now, author: author@ }),
{
    if title.as_str().is_empty() {
        return Err(ErrorCode::EmptyTitle);
    }
    Ok(AWish { title, timestamp: now, author: *author })
}

/// Creates the wish of `author` titled `title` in `ledger`, stamped with the
/// time `now`.
pub fn create_wish_at(ledger: &mut Ledger, author: &Address, title: String, now: i64) -> (r: Result<
    AWish,
    ErrorCode,
>)
    ensures
        final(ledger)@.wf(),
        (final(ledger)@, created_view(r)) == create_outcome(old(ledger)@, author@, title@, now),
{
    proof {
        use_type_invariant(&*ledger);
    }
    let wish = match new_wish(author, title, now) {
        Err(e) => {
            return Err(e);
        },
        Ok(w) => w,
    };
    let program_id = ledger.program_id();
    let accounts = match CreateWish::new(&program_id, author, wish.title.as_str()) {
        Err(e) => {
            return Err(e);
        },
        Ok(c) => c,
    };
    let handle = match ledger.allocate(&accounts.wish, accounts.space, &accounts.author) {
        Err(e) => {
            return Err(e);
        },
        Ok(h) => h,
    };
    let data = wish.to_bytes();
    proof {
        lemma_layout_fills_space(wish@);
    }
    ledger.write(handle, data);
    assert(ledger@.accounts =~= old(ledger)@.with_account(
        accounts.wish@,
        author@,
        wish_layout(wish@),
    ).accounts);
    proof {
        use_type_invariant(&*ledger);
    }
    Ok(wish)
}

/// Creates the wish of `author` titled `title` in `ledger`, stamped with the
/// time that the runtime's clock gives.
pub fn create_wish(ledger: &mut Ledger, author: &Address, title: String) -> (r: Result<
    AWish,
    ErrorCode,
>)
    ensures
        final(ledger)@.wf(),
        title@.len() == 0 ==> r == Err::<AWish, ErrorCode>(ErrorCode::EmptyTitle) && final(ledger)@
            == old(ledger)@,
        r == Err::<AWish, ErrorCode>(ErrorCode::ClockUnavailable) ==> final(ledger)@ == old(
            ledger,
        )@,
        r != Err::<AWish, ErrorCode>(ErrorCode::ClockUnavailable) ==> exists|now: i64|
            #[trigger] create_outcome(old(ledger)@, author@, title@, now) == (
                final(ledger)@,
                created_view(r),
            ),
{
    proof {
        use_type_invariant(&*ledger);
    }
    if title.as_str().is_empty() {
        assert(create_outcome(ledger@, author@, title@, 0).1 == Err::<WishView, ErrorCode>(
            ErrorCode::EmptyTitle,
        ));
        return Err(ErrorCode::EmptyTitle);
    }
    let now = match clock_unix_timestamp() {
        Err(_) => {
            return Err(ErrorCode::ClockUnavailable);
        },
        Ok(t) => t,
    };
    create_wish_at(ledger, author, title, now)
}

/// The address of a wish depends on the program, the author and the title
/// alone: the same three give the same address every time.
pub proof fn lemma_wish_address_deterministic(
    program_id: Seq<u8>,
    author: Seq<u8>,
    title: Seq<char>,
    other_author: Seq<u8>,
    other_title: Seq<char>,
)
    requires
        other_author == author,
        other_title == title,
    ensures
        wish_address(program_id, author, title) == wish_address(
            program_id,
            other_author,
            other_title,
        ),
{
}

/// A wish with a non-empty title is created once: creating it succeeds exactly
/// when its address can be derived and no account is kept there yet; once it
/// has succeeded, creating the same wish again, at any time, fails with
/// `DuplicateRecord` and leaves the store as it is.
pub proof fn lemma_create_once(
    l: LedgerView,
    author: Seq<u8>,
    title: Seq<char>,
    first: i64,
    second: i64,
)
    requires
        l.wf(),
        author.len() == AUTHOR_LEN,
        title.len() > 0,
    ensures
        create_outcome(l, author, title, first).1 is Ok <==> (wish_address(
            l.program_id,
            author,
            title,
        ) matches Some((key, _bump)) && !l.holds(key)),
        create_outcome(l, author, title, first).1 is Ok ==> {
            let after = create_outcome(l, author, title, first).0;
            &&& after.wf()
            &&& create_outcome(after, author, title, second) == (
                after,
                Err::<WishView, ErrorCode>(ErrorCode::DuplicateRecord),
            )
        },
{
    if create_outcome(l, author, title, first).1 is Ok {
        let (key, bump) = wish_address(l.program_id, author, title)->Some_0;
        let after = create_outcome(l, author, title, first).0;
        assert(after.accounts[l.accounts.len() as int].key == key);
        assert(after.holds(key));
        assert forall|i: int, j: int| 0 <= i < j < after.accounts.len() implies #[trigger] after.accounts[i].key
            != #[trigger] after.accounts[j].key by {
            if j == l.accounts.len() {
                assert(l.accounts[i].key == after.accounts[i].key);
            }
        }
    }
}

/// An empty title is refused for every author and at every time, before the
/// store is touched.
pub proof fn lemma_empty_title_refused(l: LedgerView, author: Seq<u8>, now: i64)
    ensures
        create_outcome(l, author, Seq::empty(), now) == (
            l,
            Err::<WishView, ErrorCode>(ErrorCode::EmptyTitle),
        ),
{
}

/// The account allocated for a new wish is exactly as large as its tag, the
/// title's length prefix and bytes, the timestamp and the author, and holds
/// the wish's layout, which reads back as the wish created.
pub proof fn lemma_created_account(l: LedgerView, author: Seq<u8>, title: Seq<char>, now: i64)
    requires
        author.len() == AUTHOR_LEN,
        encode_utf8(title).len() <= u32::MAX,
        create_outcome(l, author, title, now).1 is Ok,
    ensures
        ({
            let (after, r) = create_outcome(l, author, title, now);
            let data = after.accounts[l.accounts.len() as int].data;
            &&& data.len() == TAG_LEN + TITLE_LEN_PREFIX + encode_utf8(title).len() + TIMESTAMP_LEN
                + AUTHOR_LEN
            &&& parse_wish(data) == Some(r->Ok_0)
            &&& r->Ok_0 == WishView { title, timestamp: now, author }
        }),
{
    let w = WishView { title, timestamp: now, author };
    lemma_layout_fills_space(w);
    lemma_layout_round_trip(w);
}

} // verus!
