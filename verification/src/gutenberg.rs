//! Which books of Project Gutenberg are still to be brought to the network.

use std::collections::HashSet;

use vstd::prelude::*;

use crate::text::{append_decimal, decimal, law_decimal_spells_the_number, spelled};

verus! {

/// The first book that is brought.
pub const FIRST_BOOK: u32 = 1;

/// The last book that is brought.
pub const LAST_BOOK: u32 = 10;

/// How long to wait after a book was brought, in seconds.
pub const PAUSE: u64 = 3600;

/// What is to be done about a book.
#[derive(Clone, Copy, Debug, PartialEq, Eq, Structural)]
pub enum BookAction {
    /// Nothing: it was brought before.
    Skip,
    Download,
}

/// What is to be done after a download.
#[derive(Clone, Copy, Debug, PartialEq, Eq, Structural)]
pub enum AfterDownload {
    /// Upload the book, save the state and pause.
    UploadAndSave,
    /// Tell that it failed, and go on with the next book.
    ReportFailure,
}

/// The books that were brought.
#[derive(Debug)]
pub struct State {
    pub seen_books: HashSet<u32>,
}

impl View for State {
    type V = Set<u32>;

    open spec fn view(&self) -> Set<u32> {
        self.seen_books@
    }
}

impl State {
    /// No book was brought.
    pub fn new() -> (state: State)
        ensures
            state@ == Set::<u32>::empty(),
    {
        State { seen_books: HashSet::new() }
    }

    /// Remembers that a book was brought.
    pub fn mark_seen(&mut self, book_id: u32)
        ensures
            final(self)@ == old(self)@.insert(book_id),
    {
        broadcast use vstd::std_specs::hash::group_hash_axioms;

        let _ = self.seen_books.insert(book_id);
    }

    /// Whether a book was brought.
    pub fn has_seen(&self, book_id: u32) -> (seen: bool)
        ensures
            seen == self@.contains(book_id),
    {
        broadcast use vstd::std_specs::hash::group_hash_axioms;

        self.seen_books.contains(&book_id)
    }

    /// The state in which the given books were brought.
    pub fn from_ids(ids: &Vec<u32>) -> (state: State)
        ensures
            state@ == ids@.to_set(),
    {
        let mut state = State::new();
        let mut i: usize = 0;
        assert(state@ =~= ids@.take(0).to_set());
        while i < ids.len()
            invariant
                i <= ids@.len(),
                state@ == ids@.take(i as int).to_set(),
            decreases ids@.len() - i,
        {
            state.mark_seen(ids[i]);
            proof {
                let shorter = ids@.take(i as int);
                let longer = ids@.take(i + 1);
                assert(longer =~= shorter.push(ids@[i as int]));
                assert forall|id: u32| longer.to_set().contains(id) == shorter.to_set().insert(
                    ids@[i as int],
                ).contains(id) by {
                    if shorter.contains(id) {
                        let k = choose|k: int| 0 <= k < shorter.len() && shorter[k] == id;
                        assert(longer[k] == id);
                    }
                    if longer.contains(id) {
                        let k = choose|k: int| 0 <= k < longer.len() && longer[k] == id;
                        if k < shorter.len() {
                            assert(shorter[k] == id);
                        }
                    }
                    assert(longer[i as int] == ids@[i as int]);
                }
                assert(longer.to_set() =~= shorter.to_set().insert(ids@[i as int]));
            }
            i += 1;
        }
        assert(ids@.take(i as int) =~= ids@);
        state
    }

    /// The state to start with, given what came of reading the saved books: nothing where there is
    /// no file.
    pub fn load_from_file<E>(saved: Option<Result<Vec<u32>, E>>) -> (state: Result<State, E>)
        ensures
            match saved {
                None => state is Ok && state->Ok_0@ == Set::<u32>::empty(),
                Some(Ok(ids)) => state is Ok && state->Ok_0@ == ids@.to_set(),
                Some(Err(error)) => state == Err::<State, E>(error),
            },
            loads(saved, state),
    {
        match saved {
            None => Ok(State::new()),
            Some(Ok(ids)) => Ok(State::from_ids(&ids)),
            Some(Err(error)) => Err(error),
        }
    }

    /// The books that were brought, in no particular order.
    pub fn to_ids(&self) -> (ids: Vec<u32>)
        ensures
            ids@.to_set() == self@,
            ids@.no_duplicates(),
            lists(ids@, self@),
    {
        broadcast use vstd::std_specs::hash::group_hash_axioms;

        let mut ids: Vec<u32> = Vec::new();
        for id in iter: self.seen_books.iter()
            invariant
                ids@ == iter.seq().unref().take(iter.index()),
                iter.seq().unref().to_set() == self@,
                iter.index() == iter.seq().len() ==> ids@ == iter.seq().unref(),
                iter.seq().no_duplicates(),
        {
            ids.push(*id);
            assert(ids@ =~= iter.seq().unref().take(iter.index() + 1));
            assert(iter.index() + 1 == iter.seq().len() ==> ids@ =~= iter.seq().unref());
        }
        ids
    }

    /// What is to be done about a book.
    pub fn next_action(&self, book_id: u32) -> (action: BookAction)
        ensures
            action == action_for(self@, book_id),
    {
        if self.has_seen(book_id) {
            BookAction::Skip
        } else {
            BookAction::Download
        }
    }

    /// Takes note of a download.
    pub fn downloaded(&mut self, book_id: u32, succeeded: bool) -> (after: AfterDownload)
        ensures
            final(self)@ == seen_after(old(self)@, book_id, succeeded),
            after == if succeeded {
                AfterDownload::UploadAndSave
            } else {
                AfterDownload::ReportFailure
            },
            after == after_download(succeeded),
    {
        if succeeded {
            self.mark_seen(book_id);
            AfterDownload::UploadAndSave
        } else {
            AfterDownload::ReportFailure
        }
    }
}

/// What is to be done about a book, where the books of `seen` were brought.
pub open spec fn action_for(seen: Set<u32>, book_id: u32) -> BookAction {
    if seen.contains(book_id) {
        BookAction::Skip
    } else {
        BookAction::Download
    }
}

/// The books that were brought after a download.
pub open spec fn seen_after(seen: Set<u32>, book_id: u32, succeeded: bool) -> Set<u32> {
    if succeeded {
        seen.insert(book_id)
    } else {
        seen
    }
}

/// The books that were brought after a series of downloads, each with its book and whether it
/// succeeded.
pub open spec fn seen_after_all(seen: Set<u32>, downloads: Seq<(u32, bool)>) -> Set<u32>
    decreases downloads.len(),
{
    if downloads.len() == 0 {
        seen
    } else {
        let last = downloads.last();
        seen_after(seen_after_all(seen, downloads.drop_last()), last.0, last.1)
    }
}

/// What is to be done after a download.
pub open spec fn after_download(succeeded: bool) -> AfterDownload {
    if succeeded {
        AfterDownload::UploadAndSave
    } else {
        AfterDownload::ReportFailure
    }
}

/// Whether `state` is what to start with, given what came of reading the saved books.
pub open spec fn loads<E>(saved: Option<Result<Vec<u32>, E>>, state: Result<State, E>) -> bool {
    match saved {
        None => state is Ok && state->Ok_0@ == Set::<u32>::empty(),
        Some(Ok(ids)) => state is Ok && state->Ok_0@ == ids@.to_set(),
        Some(Err(error)) => state == Err::<State, E>(error),
    }
}

/// Whether the books are listed, each once.
pub open spec fn lists(ids: Seq<u32>, seen: Set<u32>) -> bool {
    ids.to_set() == seen && ids.no_duplicates()
}

/// Where a book is downloaded from.
pub open spec fn book_url_text(book_id: u32) -> Seq<char> {
    "http://www.gutenberg.org/ebooks/"@ + decimal(book_id as nat) + ".txt.utf-8"@
}

/// Where a book is downloaded from.
pub fn book_url(book_id: u32) -> (url: String)
    ensures
        url@ == book_url_text(book_id),
{
    let mut url = "http://www.gutenberg.org/ebooks/".to_owned();
    append_decimal(&mut url, book_id);
    url.append(".txt.utf-8");
    url
}

/// A book is skipped exactly when it was brought at the start or by an earlier download: what
/// failed is tried again, what succeeded never is.
pub proof fn law_each_book_is_brought_once(
    seen: Set<u32>,
    downloads: Seq<(u32, bool)>,
    book_id: u32,
)
    ensures
        action_for(seen_after_all(seen, downloads), book_id) is Skip <==> seen.contains(book_id)
            || downloads.contains((book_id, true)),
    decreases downloads.len(),
{
    if downloads.len() > 0 {
        let earlier = downloads.drop_last();
        law_each_book_is_brought_once(seen, earlier, book_id);
        if earlier.contains((book_id, true)) {
            let k = choose|k: int| 0 <= k < earlier.len() && earlier[k] == (book_id, true);
            assert(downloads[k] == (book_id, true));
        }
        if downloads.contains((book_id, true)) {
            let k = choose|k: int| 0 <= k < downloads.len() && downloads[k] == (book_id, true);
            if k < earlier.len() {
                assert(earlier[k] == (book_id, true));
            }
        }
        if downloads.last() == (book_id, true) {
            assert(downloads[downloads.len() - 1] == (book_id, true));
        }
    }
}

/// A state that is saved as a list of books and loaded from it again is the same state.
pub proof fn law_saved_state_is_loaded(saved: State, ids: Seq<u32>, loaded: State)
    requires
        ids.to_set() == saved@,
        loaded@ == ids.to_set(),
    ensures
        loaded@ == saved@,
{
}

/// What was saved is loaded: a book was brought after loading exactly where it was saved. Without
/// a file no book was brought, and a file that cannot be read is an error.
pub proof fn law_loading_undoes_saving<E>(
    seen: Set<u32>,
    ids: Vec<u32>,
    error: E,
    loaded: Result<State, E>,
    fresh: Result<State, E>,
    failed: Result<State, E>,
    book_id: u32,
)
    requires
        lists(ids@, seen),
        loads(Some(Ok::<Vec<u32>, E>(ids)), loaded),
        loads(None, fresh),
        loads(Some(Err::<Vec<u32>, E>(error)), failed),
    ensures
        loaded matches Ok(state) && (action_for(state@, book_id) is Skip <==> seen.contains(
            book_id,
        )),
        fresh matches Ok(state) && action_for(state@, book_id) is Download,
        failed == Err::<State, E>(error),
        ids@.no_duplicates(),
{
}

/// A download changes nothing but whether its own book was brought, and that only if it succeeded;
/// it is uploaded then, and reported otherwise.
pub proof fn law_only_success_is_remembered(
    seen: Set<u32>,
    book_id: u32,
    other: u32,
    succeeded: bool,
)
    ensures
        seen_after(seen, book_id, succeeded).contains(other) <==> seen.contains(other) || succeeded
            && other == book_id,
        after_download(succeeded) is UploadAndSave <==> succeeded,
        after_download(succeeded) is ReportFailure <==> !succeeded,
{
}

/// A book's address is that of the library, the number of the book, and the suffix of plain texts.
/// So different books have different addresses.
pub proof fn law_each_book_has_its_own_address(book_id: u32, other: u32)
    ensures
        exists|number: Seq<char>|
            #[trigger] spelled(number) == book_id && (number.len() > 1 ==> number[0] != '0')
                && book_url_text(book_id) == "http://www.gutenberg.org/ebooks/"@ + number
                + ".txt.utf-8"@,
        book_url_text(book_id) == book_url_text(other) ==> book_id == other,
{
    let a = decimal(book_id as nat);
    let b = decimal(other as nat);
    law_decimal_spells_the_number(book_id as nat);
    law_decimal_spells_the_number(other as nat);
    assert(spelled(a) == book_id);
    if book_url_text(book_id) == book_url_text(other) {
        let front = "http://www.gutenberg.org/ebooks/"@.len() as int;
        let x = book_url_text(book_id);
        let y = book_url_text(other);
        let back = ".txt.utf-8"@.len() as int;
        assert(x.len() == front + a.len() + back);
        assert(y.len() == front + b.len() + back);
        assert forall|i: int| 0 <= i < a.len() implies a[i] == b[i] by {
            assert(x[front + i] == a[i]);
            assert(y[front + i] == b[i]);
        }
        assert(a =~= b);
    }
}

/// Books one to ten are brought, with an hour between them.
pub proof fn law_books_that_are_brought()
    ensures
        FIRST_BOOK == 1,
        LAST_BOOK == 10,
        PAUSE == 60 * 60,
{
}

} // verus!
