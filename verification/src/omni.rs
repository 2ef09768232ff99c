//! The books of an asset: which amounts each address received and spent, in order.
//!
//! The amounts stay texts here; they are read and added up by the caller.

use vstd::prelude::*;

verus! {

/// A transaction of the asset.
#[derive(Debug)]
pub struct Transaction {
    pub sendingaddress: Option<String>,
    pub referenceaddress: Option<String>,
    /// What the sender spends.
    pub amount: Option<String>,
    /// What the recipient receives.
    pub purchasedtokens: Option<String>,
}

/// An amount that an address received or spent.
#[derive(Debug)]
pub struct Entry {
    pub received: bool,
    pub amount: String,
}

/// What an entry says.
pub struct EntryView {
    pub received: bool,
    pub amount: Seq<char>,
}

impl View for Entry {
    type V = EntryView;

    open spec fn view(&self) -> EntryView {
        EntryView { received: self.received, amount: self.amount@ }
    }
}

/// An address with its entries, oldest first.
#[derive(Debug)]
pub struct Account {
    pub address: String,
    pub entries: Vec<Entry>,
}

/// The text of an amount; an amount that is missing is zero.
pub open spec fn amount_text(amount: Option<String>) -> Seq<char> {
    match amount {
        Some(text) => text@,
        None => "0"@,
    }
}

/// What a transaction books, in order, with the address of each entry.
pub open spec fn postings_of(tx: Transaction) -> Seq<(Seq<char>, EntryView)> {
    (match tx.sendingaddress {
        Some(sender) => seq![
            (sender@, EntryView { received: false, amount: amount_text(tx.amount) }),
        ],
        None => Seq::empty(),
    }) + (match tx.referenceaddress {
        Some(recipient) => seq![
            (recipient@, EntryView { received: true, amount: amount_text(tx.purchasedtokens) }),
        ],
        None => Seq::empty(),
    })
}

/// What some transactions book, in order.
pub open spec fn postings(txs: Seq<Transaction>) -> Seq<(Seq<char>, EntryView)>
    decreases txs.len(),
{
    if txs.len() == 0 {
        Seq::empty()
    } else {
        postings(txs.drop_last()) + postings_of(txs.last())
    }
}

/// What is booked on an address, in order.
pub open spec fn entries_on(booked: Seq<(Seq<char>, EntryView)>, address: Seq<char>) -> Seq<
    EntryView,
>
    decreases booked.len(),
{
    if booked.len() == 0 {
        Seq::empty()
    } else {
        let before = entries_on(booked.drop_last(), address);
        if booked.last().0 == address {
            before.push(booked.last().1)
        } else {
            before
        }
    }
}

/// The addresses that something is booked on, in the order of their first entries.
pub open spec fn addresses_of(booked: Seq<(Seq<char>, EntryView)>) -> Seq<Seq<char>>
    decreases booked.len(),
{
    if booked.len() == 0 {
        Seq::empty()
    } else {
        let before = addresses_of(booked.drop_last());
        if before.contains(booked.last().0) {
            before
        } else {
            before.push(booked.last().0)
        }
    }
}

/// The addresses of some accounts.
pub open spec fn account_addresses(accounts: Seq<Account>) -> Seq<Seq<char>> {
    accounts.map_values(|a: Account| a.address@)
}

/// What some entries say.
pub open spec fn entry_views(entries: Seq<Entry>) -> Seq<EntryView> {
    entries.map_values(|e: Entry| e@)
}

/// Whether the accounts hold what was booked, and nothing else.
pub open spec fn are_books(
    accounts: Seq<Account>,
    booked: Seq<(Seq<char>, EntryView)>,
) -> bool {
    &&& account_addresses(accounts) == addresses_of(booked)
    &&& forall|i: int|
        0 <= i < accounts.len() ==> entry_views((#[trigger] accounts[i]).entries@) == entries_on(
            booked,
            accounts[i].address@,
        )
}

proof fn lemma_addresses_of(booked: Seq<(Seq<char>, EntryView)>)
    ensures
        addresses_of(booked).no_duplicates(),
        forall|address: Seq<char>|
            !addresses_of(booked).contains(address) ==> #[trigger] entries_on(booked, address)
                == Seq::<EntryView>::empty(),
    decreases booked.len(),
{
    if booked.len() > 0 {
        let before = addresses_of(booked.drop_last());
        lemma_addresses_of(booked.drop_last());
        assert forall|address: Seq<char>| !addresses_of(booked).contains(
            address,
        ) implies #[trigger] entries_on(booked, address) == Seq::<EntryView>::empty() by {
            let after = addresses_of(booked);
            if before.contains(address) {
                let k = choose|k: int| 0 <= k < before.len() && before[k] == address;
                assert(after[k] == address);
            }
            if booked.last().0 == address && !before.contains(address) {
                assert(after[before.len() as int] == address);
            }
            assert(entries_on(booked.drop_last(), address) == Seq::<EntryView>::empty());
        }
    }
}

/// Books an entry on an address.
fn book(
    accounts: &mut Vec<Account>,
    address: String,
    entry: Entry,
    Ghost(booked): Ghost<Seq<(Seq<char>, EntryView)>>,
)
    requires
        are_books(old(accounts)@, booked),
    ensures
        are_books(final(accounts)@, booked.push((address@, entry@))),
{
    let ghost before = accounts@;
    let ghost next = booked.push((address@, entry@));
    proof {
        lemma_addresses_of(booked);
        assert(next.drop_last() =~= booked);
    }
    let mut i: usize = 0;
    while i < accounts.len() && accounts[i].address != address
        invariant
            i <= accounts@.len(),
            accounts@ == before,
            forall|j: int| 0 <= j < i ==> (#[trigger] before[j]).address@ != address@,
        decreases accounts@.len() - i,
    {
        i += 1;
    }
    if i < accounts.len() {
        let mut account = accounts.remove(i);
        let ghost entries = account.entries@;
        account.entries.push(entry);
        accounts.insert(i, account);
        proof {
            assert(accounts@ =~= before.update(i as int, account));
            assert(account_addresses(before)[i as int] == address@);
            assert(account_addresses(accounts@) =~= account_addresses(before));
            assert(entry_views(account.entries@) =~= entry_views(entries).push(entry@));
            assert forall|j: int| 0 <= j < accounts@.len() implies entry_views(
                (#[trigger] accounts@[j]).entries@,
            ) == entries_on(next, accounts@[j].address@) by {
                assert(entry_views(before[j].entries@) == entries_on(booked, before[j].address@));
                if j != i {
                    assert(account_addresses(before)[j] != account_addresses(before)[i as int]);
                    assert(before[j].address@ != address@);
                }
            }
        }
    } else {
        let mut entries: Vec<Entry> = Vec::new();
        entries.push(entry);
        let account = Account { address, entries };
        accounts.push(account);
        proof {
            assert(!account_addresses(before).contains(address@)) by {
                if account_addresses(before).contains(address@) {
                    let k = choose|k: int|
                        0 <= k < account_addresses(before).len() && account_addresses(before)[k]
                            == address@;
                    assert(before[k].address@ == address@);
                }
            }
            assert(account_addresses(accounts@) =~= account_addresses(before).push(address@));
            assert(entries_on(booked, address@) == Seq::<EntryView>::empty());
            assert(entry_views(account.entries@) =~= Seq::<EntryView>::empty().push(entry@));
            assert forall|j: int| 0 <= j < accounts@.len() implies entry_views(
                (#[trigger] accounts@[j]).entries@,
            ) == entries_on(next, accounts@[j].address@) by {
                if j < before.len() {
                    assert(entry_views(before[j].entries@) == entries_on(
                        booked,
                        before[j].address@,
                    ));
                    assert(before[j].address@ != address@);
                }
            }
        }
    }
}

fn amount_or_zero(amount: &Option<String>) -> (text: String)
    ensures
        text@ == amount_text(*amount),
{
    match amount {
        Some(text) => text.clone(),
        None => "0".to_owned(),
    }
}

/// The accounts that the transactions give.
pub fn keep_books(transactions: &Vec<Transaction>) -> (accounts: Vec<Account>)
    ensures
        are_books(accounts@, postings(transactions@)),
{
    let mut accounts: Vec<Account> = Vec::new();
    let mut i: usize = 0;
    assert(account_addresses(accounts@) =~= addresses_of(postings(transactions@.take(0))));
    while i < transactions.len()
        invariant
            i <= transactions@.len(),
            are_books(accounts@, postings(transactions@.take(i as int))),
        decreases transactions@.len() - i,
    {
        let tx: &Transaction = &transactions[i];
        let ghost mut booked = postings(transactions@.take(i as int));
        let ghost expected = booked + postings_of(*tx);
        assert(transactions@.take(i + 1).drop_last() =~= transactions@.take(i as int));
        if let Some(sender) = &tx.sendingaddress {
            let entry = Entry { received: false, amount: amount_or_zero(&tx.amount) };
            book(&mut accounts, sender.clone(), entry, Ghost(booked));
            proof {
                booked = booked.push((sender@, entry@));
            }
        }
        if let Some(recipient) = &tx.referenceaddress {
            let entry = Entry { received: true, amount: amount_or_zero(&tx.purchasedtokens) };
            book(&mut accounts, recipient.clone(), entry, Ghost(booked));
            proof {
                booked = booked.push((recipient@, entry@));
            }
        }
        assert(booked =~= expected);
        i += 1;
    }
    assert(transactions@.take(i as int) =~= transactions@);
    accounts
}

/// Every address that something is booked on has exactly one account, and no other address has.
pub proof fn law_each_address_has_one_account(
    accounts: Seq<Account>,
    booked: Seq<(Seq<char>, EntryView)>,
    address: Seq<char>,
)
    requires
        are_books(accounts, booked),
    ensures
        account_addresses(accounts).no_duplicates(),
        account_addresses(accounts).contains(address) <==> exists|i: int|
            0 <= i < booked.len() && (#[trigger] booked[i]).0 == address,
{
    lemma_addresses_of(booked);
    lemma_booked_addresses(booked, address);
}

proof fn lemma_booked_addresses(booked: Seq<(Seq<char>, EntryView)>, address: Seq<char>)
    ensures
        addresses_of(booked).contains(address) <==> exists|i: int|
            0 <= i < booked.len() && (#[trigger] booked[i]).0 == address,
    decreases booked.len(),
{
    if booked.len() > 0 {
        let earlier = booked.drop_last();
        let before = addresses_of(earlier);
        let after = addresses_of(booked);
        lemma_booked_addresses(earlier, address);
        if before.contains(address) {
            let k = choose|k: int| 0 <= k < before.len() && before[k] == address;
            assert(after[k] == address);
            let i = choose|i: int| 0 <= i < earlier.len() && (#[trigger] earlier[i]).0 == address;
            assert(booked[i].0 == address);
        }
        if booked.last().0 == address {
            assert(booked[booked.len() - 1].0 == address);
            if !before.contains(address) {
                assert(after[before.len() as int] == address);
            }
        }
        if exists|i: int| 0 <= i < booked.len() && (#[trigger] booked[i]).0 == address {
            let i = choose|i: int| 0 <= i < booked.len() && (#[trigger] booked[i]).0 == address;
            if i < earlier.len() {
                assert(earlier[i].0 == address);
            }
        }
    }
}

/// An account has as many entries as there are postings on its address, repeated ones counted
/// each time, and its entries are those postings in order.
pub proof fn law_every_posting_is_entered(
    accounts: Seq<Account>,
    booked: Seq<(Seq<char>, EntryView)>,
    i: int,
)
    requires
        are_books(accounts, booked),
        0 <= i < accounts.len(),
    ensures
        ({
            let entries = accounts[i].entries@;
            let address = accounts[i].address@;
            let own = booked.filter(|b: (Seq<char>, EntryView)| b.0 == address);
            &&& entries.len() == own.len()
            &&& forall|j: int|
                0 <= j < entries.len() ==> (#[trigger] entries[j]).received == own[j].1.received
                    && entries[j].amount@ == own[j].1.amount
        }),
{
    let address = accounts[i].address@;
    let entries = accounts[i].entries@;
    lemma_entries_are_filtered(booked, address);
    assert forall|j: int| 0 <= j < entries.len() implies (#[trigger] entries[j])@ == entries_on(
        booked,
        address,
    )[j] by {
        assert(entry_views(entries)[j] == entries[j]@);
    }
}

proof fn lemma_entries_are_filtered(booked: Seq<(Seq<char>, EntryView)>, address: Seq<char>)
    ensures
        entries_on(booked, address).len() == booked.filter(
            |b: (Seq<char>, EntryView)| b.0 == address,
        ).len(),
        forall|j: int|
            0 <= j < entries_on(booked, address).len() ==> #[trigger] entries_on(booked, address)[j]
                == booked.filter(|b: (Seq<char>, EntryView)| b.0 == address)[j].1,
    decreases booked.len(),
{
    reveal(Seq::filter);
    if booked.len() > 0 {
        lemma_entries_are_filtered(booked.drop_last(), address);
    }
}

/// What is booked later is entered behind what was booked before: the same posting again is one
/// more entry, and a posting on another address none.
pub proof fn law_entries_add_up(
    earlier: Seq<(Seq<char>, EntryView)>,
    later: Seq<(Seq<char>, EntryView)>,
    address: Seq<char>,
    entry: EntryView,
    other: Seq<char>,
)
    requires
        other != address,
    ensures
        entries_on(earlier + later, address) == entries_on(earlier, address) + entries_on(
            later,
            address,
        ),
        entries_on(earlier.push((address, entry)), address).len() == entries_on(
            earlier,
            address,
        ).len() + 1,
        entries_on(earlier.push((address, entry)), address).last() == entry,
        entries_on(earlier.push((other, entry)), address) == entries_on(earlier, address),
    decreases later.len(),
{
    assert(earlier.push((address, entry)).drop_last() =~= earlier);
    assert(earlier.push((other, entry)).drop_last() =~= earlier);
    if later.len() == 0 {
        assert(earlier + later =~= earlier);
        assert(entries_on(earlier, address) + entries_on(later, address) =~= entries_on(
            earlier,
            address,
        ));
    } else {
        law_entries_add_up(earlier, later.drop_last(), address, entry, other);
        assert((earlier + later).drop_last() =~= earlier + later.drop_last());
        assert(entries_on(earlier + later, address) =~= entries_on(earlier, address) + entries_on(
            later,
            address,
        ));
    }
}

/// Transactions book one after the other.
pub proof fn law_transactions_are_booked_in_order(
    earlier: Seq<Transaction>,
    later: Seq<Transaction>,
)
    ensures
        postings(earlier + later) == postings(earlier) + postings(later),
    decreases later.len(),
{
    if later.len() == 0 {
        assert(earlier + later =~= earlier);
        assert(postings(earlier) + postings(later) =~= postings(earlier));
    } else {
        law_transactions_are_booked_in_order(earlier, later.drop_last());
        assert((earlier + later).drop_last() =~= earlier + later.drop_last());
        assert(postings(earlier + later) =~= postings(earlier) + postings(later));
    }
}

/// A transaction books what its sender spends on the sender and then what its recipient receives
/// on the recipient, as far as it has them. An amount that is missing is booked as zero.
pub proof fn law_transaction_books_both_sides(tx: Transaction)
    ensures
        ({
            let booked = postings(seq![tx]);
            &&& booked.len() == (if tx.sendingaddress is Some { 1int } else { 0 }) + (
            if tx.referenceaddress is Some { 1int } else { 0 })
            &&& tx.sendingaddress matches Some(sender) ==> {
                &&& booked.first().0 == sender@
                &&& !booked.first().1.received
                &&& tx.amount matches Some(amount) ==> booked.first().1.amount == amount@
                &&& tx.amount is None ==> booked.first().1.amount == seq!['0']
            }
            &&& tx.referenceaddress matches Some(recipient) ==> {
                &&& booked.last().0 == recipient@
                &&& booked.last().1.received
                &&& tx.purchasedtokens matches Some(amount) ==> booked.last().1.amount == amount@
                &&& tx.purchasedtokens is None ==> booked.last().1.amount == seq!['0']
            }
        }),
{
    reveal_strlit("0");
    assert("0"@ =~= seq!['0']);
    let one = seq![tx];
    assert(one.drop_last() =~= Seq::<Transaction>::empty());
    assert(one.last() == tx);
    assert(postings(one.drop_last()) =~= Seq::<(Seq<char>, EntryView)>::empty());
    assert(postings(one) =~= postings_of(tx));
}

/// The accounts come in the order in which something was first booked on their addresses.
pub proof fn law_accounts_come_in_order(
    accounts: Seq<Account>,
    booked: Seq<(Seq<char>, EntryView)>,
    i: int,
    j: int,
)
    requires
        are_books(accounts, booked),
        0 <= i < j < accounts.len(),
    ensures
        exists|k: int|
            0 <= k < booked.len() && (#[trigger] booked[k]).0 == accounts[i].address@ && forall|
                l: int,
            |
                0 <= l <= k ==> (#[trigger] booked[l]).0 != accounts[j].address@,
{
    lemma_addresses_in_order(booked, i, j);
    assert(account_addresses(accounts)[i] == accounts[i].address@);
    assert(account_addresses(accounts)[j] == accounts[j].address@);
}

proof fn lemma_addresses_in_order(booked: Seq<(Seq<char>, EntryView)>, i: int, j: int)
    requires
        0 <= i < j < addresses_of(booked).len(),
    ensures
        exists|k: int|
            0 <= k < booked.len() && (#[trigger] booked[k]).0 == addresses_of(booked)[i] && forall|
                l: int,
            |
                0 <= l <= k ==> (#[trigger] booked[l]).0 != addresses_of(booked)[j],
    decreases booked.len(),
{
    let earlier = booked.drop_last();
    let before = addresses_of(earlier);
    let first = addresses_of(booked)[i];
    let second = addresses_of(booked)[j];
    if j < before.len() {
        lemma_addresses_in_order(earlier, i, j);
        let k = choose|k: int|
            0 <= k < earlier.len() && (#[trigger] earlier[k]).0 == first && forall|l: int|
                0 <= l <= k ==> (#[trigger] earlier[l]).0 != second;
        assert(booked[k].0 == first);
        assert forall|l: int| 0 <= l <= k implies (#[trigger] booked[l]).0 != second by {
            assert(earlier[l].0 != second);
        }
    } else {
        lemma_booked_addresses(earlier, first);
        lemma_booked_addresses(earlier, second);
        assert(before[i] == first);
        assert(before.contains(first));
        let k = choose|k: int| 0 <= k < earlier.len() && (#[trigger] earlier[k]).0 == first;
        assert(booked[k].0 == first);
        assert forall|l: int| 0 <= l <= k implies (#[trigger] booked[l]).0 != second by {
            assert(earlier[l].0 == booked[l].0);
        }
    }
}

} // verus!
