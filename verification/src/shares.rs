//! What we share: the files by their ids, and for each word the ids of the files whose path
//! holds it.
use vstd::prelude::*;

use crate::peer_net::naming::{basename, basename_of, dirname, dirname_of};
use crate::text::{
    chars_of, group_views, lowercase, same, split_whitespace, to_lowercase, views, words_of,
};

verus! {

broadcast use group_views;

/// One shared file.
pub struct SharedFileEntry {
    /// Where it is on disk.
    pub real_path: String,
    /// What peers call it.
    pub virtual_path: String,
    pub size: u64,
}

pub struct EntryView {
    pub real_path: Seq<char>,
    pub virtual_path: Seq<char>,
    pub size: u64,
}

impl View for SharedFileEntry {
    type V = EntryView;

    open spec fn view(&self) -> EntryView {
        EntryView {
            real_path: self.real_path@,
            virtual_path: self.virtual_path@,
            size: self.size,
        }
    }
}

/// A file as it is named to a peer.
#[derive(Debug, PartialEq)]
pub struct SharedFile {
    pub name: String,
    pub size: u64,
}

pub struct SharedFileView {
    pub name: Seq<char>,
    pub size: u64,
}

impl View for SharedFile {
    type V = SharedFileView;

    open spec fn view(&self) -> SharedFileView {
        SharedFileView { name: self.name@, size: self.size }
    }
}

/// A folder as a peer sees it.
#[derive(Debug, PartialEq)]
pub struct SharedFolder {
    pub path: String,
    /// The files that stand right in it, by their names in it.
    pub files: Vec<SharedFile>,
}

pub struct SharedFolderView {
    pub path: Seq<char>,
    pub files: Seq<SharedFileView>,
}

impl View for SharedFolder {
    type V = SharedFolderView;

    open spec fn view(&self) -> SharedFolderView {
        SharedFolderView { path: self.path@, files: views(self.files@) }
    }
}

/// A word and the files that it occurs in.
pub struct WordEntry {
    pub word: String,
    pub ids: Vec<u32>,
}

impl View for WordEntry {
    type V = (Seq<char>, Seq<u32>);

    open spec fn view(&self) -> (Seq<char>, Seq<u32>) {
        (self.word@, self.ids@)
    }
}

pub type WordsView = Seq<(Seq<char>, Seq<u32>)>;

/// Which files hold a word: each word once, with the ids in the order in which they came.
pub struct WordIndex {
    entries: Vec<WordEntry>,
}

impl View for WordIndex {
    type V = WordsView;

    closed spec fn view(&self) -> WordsView {
        views(self.entries@)
    }
}

/// Where a word stands in the index, or the index's length.
pub open spec fn word_slot(words: WordsView, word: Seq<char>) -> int
    decreases words.len(),
{
    if words.len() == 0 || words[0].0 == word {
        0
    } else {
        1 + word_slot(words.skip(1), word)
    }
}

/// The ids of the files that hold a word, if the word is known.
pub open spec fn ids_of(words: WordsView, word: Seq<char>) -> Option<Seq<u32>> {
    let i = word_slot(words, word);
    if i < words.len() {
        Some(words[i].1)
    } else {
        None
    }
}

/// The index after a file was noted under a word.
pub open spec fn noted(words: WordsView, word: Seq<char>, id: u32) -> WordsView {
    let i = word_slot(words, word);
    if i < words.len() {
        words.update(i, (word, words[i].1.push(id)))
    } else {
        words.push((word, seq![id]))
    }
}

pub proof fn lemma_word_slot(words: WordsView, word: Seq<char>, i: int)
    requires
        0 <= i <= words.len(),
        forall|j: int| 0 <= j < i ==> (#[trigger] words[j]).0 != word,
        i < words.len() ==> words[i].0 == word,
    ensures
        word_slot(words, word) == i,
    decreases i,
{
    if i > 0 {
        assert(words[0].0 != word);
        assert forall|j: int| 0 <= j < i - 1 implies (#[trigger] words.skip(1)[j]).0 != word by {
            assert(words[j + 1].0 != word);
        }
        lemma_word_slot(words.skip(1), word, i - 1);
    }
}

pub proof fn lemma_word_slot_is(words: WordsView, word: Seq<char>)
    ensures
        0 <= word_slot(words, word) <= words.len(),
        word_slot(words, word) < words.len() ==> words[word_slot(words, word)].0 == word,
        forall|j: int|
            0 <= j < word_slot(words, word) ==> (#[trigger] words[j]).0 != word,
    decreases words.len(),
{
    if words.len() > 0 && words[0].0 != word {
        let rest = words.skip(1);
        lemma_word_slot_is(rest, word);
        assert forall|j: int| 0 <= j < word_slot(words, word) implies (#[trigger] words[j]).0
            != word by {
            if j > 0 {
                assert(rest[j - 1].0 != word);
            }
        }
    }
}

/// A file noted under a word is found under it, behind those that were there; what is noted
/// under other words stays.
pub proof fn law_noted_words_are_found(words: WordsView, word: Seq<char>, id: u32, other: Seq<char>)
    ensures
        ids_of(noted(words, word, id), word) == Some(
            match ids_of(words, word) {
                Some(ids) => ids.push(id),
                None => seq![id],
            },
        ),
        other != word ==> ids_of(noted(words, word, id), other) == ids_of(words, other),
{
    lemma_word_slot_is(words, word);
    let i = word_slot(words, word);
    let after = noted(words, word, id);
    lemma_word_slot(after, word, i);
    if other != word {
        lemma_word_slot_is(words, other);
        let k = word_slot(words, other);
        if k < words.len() {
            lemma_word_slot(after, other, k);
        } else {
            lemma_word_slot(after, other, after.len() as int);
        }
    }
}

impl WordIndex {
    pub fn new() -> (index: WordIndex)
        ensures
            index@ == WordsView::empty(),
    {
        let index = WordIndex { entries: Vec::new() };
        assert(index@ =~= WordsView::empty());
        index
    }

    pub fn len(&self) -> (n: usize)
        ensures
            n == self@.len(),
    {
        self.entries.len()
    }

    /// The entry at a position.
    pub fn at(&self, i: usize) -> (entry: &WordEntry)
        requires
            i < self@.len(),
        ensures
            entry@ == self@[i as int],
    {
        &self.entries[i]
    }

    fn slot(&self, word: &str) -> (i: usize)
        ensures
            i == word_slot(self@, word@),
            i <= self@.len(),
    {
        let mut i: usize = 0;
        while i < self.entries.len()
            invariant
                i <= self.entries@.len(),
                self@ == views(self.entries@),
                forall|j: int| 0 <= j < i ==> (#[trigger] self@[j]).0 != word@,
            decreases self.entries@.len() - i,
        {
            if same(self.entries[i].word.as_str(), word) {
                proof {
                    lemma_word_slot(self@, word@, i as int);
                }
                return i;
            }
            i += 1;
        }
        proof {
            lemma_word_slot(self@, word@, i as int);
        }
        i
    }

    /// The files that hold a word, if the word is known.
    pub fn get(&self, word: &str) -> (ids: Option<&Vec<u32>>)
        ensures
            ids is Some == ids_of(self@, word@) is Some,
            ids is Some ==> ids->0@ == ids_of(self@, word@)->0,
    {
        let i = self.slot(word);
        if i < self.entries.len() {
            Some(&self.entries[i].ids)
        } else {
            None
        }
    }

    /// Notes that a file holds a word.
    pub fn note(&mut self, word: String, id: u32)
        ensures
            final(self)@ == noted(old(self)@, word@, id),
    {
        let i = self.slot(word.as_str());
        proof {
            lemma_word_slot_is(self@, word@);
        }
        if i < self.entries.len() {
            let mut entry = self.entries.remove(i);
            entry.ids.push(id);
            self.entries.insert(i, entry);
            assert(self@ =~= noted(old(self)@, word@, id));
        } else {
            let ids: Vec<u32> = vec![id];
            assert(ids@ =~= seq![id]);
            self.entries.push(WordEntry { word, ids });
            assert(self@ =~= noted(old(self)@, word@, id));
        }
    }
}

/// Everything we share.
pub struct ShareIndex {
    files: Vec<SharedFileEntry>,
    word_index: WordIndex,
}

pub struct SharesView {
    pub files: Seq<EntryView>,
    pub words: WordsView,
}

impl View for ShareIndex {
    type V = SharesView;

    closed spec fn view(&self) -> SharesView {
        SharesView { files: views(self.files@), words: self.word_index@ }
    }
}

/// Where the first file of a virtual path stands, or the number of files.
pub open spec fn file_slot(files: Seq<EntryView>, path: Seq<char>) -> int
    decreases files.len(),
{
    if files.len() == 0 || files[0].virtual_path == path {
        0
    } else {
        1 + file_slot(files.skip(1), path)
    }
}

/// The file that a virtual path names, if we share one: where it is on disk, and its size.
pub open spec fn resolved(files: Seq<EntryView>, path: Seq<char>) -> Option<(Seq<char>, u64)> {
    let i = file_slot(files, path);
    if i < files.len() {
        Some((files[i].real_path, files[i].size))
    } else {
        None
    }
}

proof fn lemma_file_slot(files: Seq<EntryView>, path: Seq<char>, i: int)
    requires
        0 <= i <= files.len(),
        forall|j: int| 0 <= j < i ==> (#[trigger] files[j]).virtual_path != path,
        i < files.len() ==> files[i].virtual_path == path,
    ensures
        file_slot(files, path) == i,
    decreases i,
{
    if i > 0 {
        assert(files[0].virtual_path != path);
        assert forall|j: int| 0 <= j < i - 1 implies (#[trigger] files.skip(1)[j]).virtual_path
            != path by {
            assert(files[j + 1].virtual_path != path);
        }
        lemma_file_slot(files.skip(1), path, i - 1);
    }
}

/// A file as it is named to a peer.
pub open spec fn as_shared(e: EntryView) -> SharedFileView {
    SharedFileView { name: e.virtual_path, size: e.size }
}

/// Whether every id that the word index lists is one of a file.
pub open spec fn ids_known(shares: SharesView) -> bool {
    forall|w: int, k: int|
        0 <= w < shares.words.len() && 0 <= k < shares.words[w].1.len()
            ==> (#[trigger] shares.words[w].1[k]) < shares.files.len()
}

/// Whether a character is ASCII punctuation.
pub open spec fn is_punctuation(c: char) -> bool {
    let n = c as u32;
    ||| 0x21 <= n <= 0x2f
    ||| 0x3a <= n <= 0x40
    ||| 0x5b <= n <= 0x60
    ||| 0x7b <= n <= 0x7e
}

/// A text with spaces in the place of punctuation.
pub open spec fn spaced(s: Seq<char>) -> Seq<char> {
    s.map_values(
        |c: char|
            if is_punctuation(c) {
                ' '
            } else {
                c
            },
    )
}

/// The words of a path, in lower case: what stands between white space and punctuation.
pub open spec fn path_words(path: Seq<char>) -> Seq<Seq<char>> {
    words_of(spaced(lowercase(path)))
}

/// The words of a path, in lower case.
pub fn tokenize(path: &str) -> (words: Vec<String>)
    ensures
        views(words@) == path_words(path@),
{
    let lower = to_lowercase(path);
    let v = chars_of(lower.as_str());
    let mut out = String::new();
    let mut i: usize = 0;
    assert(out@ =~= spaced(v@).take(0));
    while i < v.len()
        invariant
            i <= v@.len(),
            out@ == spaced(v@).take(i as int),
        decreases v@.len() - i,
    {
        let c = v[i];
        let n: u32 = c as u32;
        if (0x21 <= n && n <= 0x2f) || (0x3a <= n && n <= 0x40) || (0x5b <= n && n <= 0x60) || (0x7b
            <= n && n <= 0x7e) {
            out.push(' ');
        } else {
            out.push(c);
        }
        i += 1;
        assert(spaced(v@).take(i as int) =~= spaced(v@).take(i as int - 1).push(
            spaced(v@)[i as int - 1],
        ));
    }
    assert(spaced(v@).take(i as int) =~= spaced(v@));
    split_whitespace(out.as_str())
}

/// The word index after a file was noted under the words of its path, once under each.
pub open spec fn indexed(words: WordsView, path: Seq<Seq<char>>, id: u32) -> WordsView
    decreases path.len(),
{
    if path.len() == 0 {
        words
    } else {
        let before = indexed(words, path.drop_last(), id);
        if listed_last(before, path.last(), id) {
            before
        } else {
            noted(before, path.last(), id)
        }
    }
}

/// Whether the last file under a word is this one.
pub open spec fn listed_last(words: WordsView, word: Seq<char>, id: u32) -> bool {
    ids_of(words, word) matches Some(ids) && ids.len() > 0 && ids.last() == id
}

/// The shares with one more file.
pub open spec fn with_file(shares: SharesView, entry: EntryView) -> SharesView {
    SharesView {
        files: shares.files.push(entry),
        words: indexed(shares.words, path_words(entry.virtual_path), shares.files.len() as u32),
    }
}

proof fn lemma_noted_known(words: WordsView, word: Seq<char>, id: u32, total: int)
    requires
        id < total,
        forall|w: int, k: int|
            0 <= w < words.len() && 0 <= k < words[w].1.len() ==> (#[trigger] words[w].1[k])
                < total,
    ensures
        forall|w: int, k: int|
            0 <= w < noted(words, word, id).len() && 0 <= k < noted(words, word, id)[w].1.len()
                ==> (#[trigger] noted(words, word, id)[w].1[k]) < total,
{
    lemma_word_slot_is(words, word);
    let after = noted(words, word, id);
    let i = word_slot(words, word);
    assert forall|w: int, k: int|
        0 <= w < after.len() && 0 <= k < after[w].1.len() implies (#[trigger] after[w].1[k])
        < total by {
        if w < words.len() {
            if w != i || k < words[w].1.len() {
                assert(after[w].1[k] == words[w].1[k]);
            }
        }
    }
}

/// Tells the files that stand right in a folder.
pub open spec fn inside(folder: Seq<char>) -> spec_fn(EntryView) -> bool {
    |e: EntryView| dirname_of(e.virtual_path) == folder
}

/// The files of a folder by their names in it.
pub open spec fn folder_of(files: Seq<EntryView>, folder: Seq<char>) -> Seq<SharedFileView> {
    files.filter(inside(folder)).map_values(
        |e: EntryView| SharedFileView { name: basename_of(e.virtual_path), size: e.size },
    )
}

/// The folders that files stand in, each once, in the order in which they are first met.
pub open spec fn folders_of(files: Seq<EntryView>) -> Seq<Seq<char>>
    decreases files.len(),
{
    if files.len() == 0 {
        Seq::empty()
    } else {
        let before = folders_of(files.drop_last());
        let folder = dirname_of(files.last().virtual_path);
        if before.contains(folder) {
            before
        } else {
            before.push(folder)
        }
    }
}

impl ShareIndex {
    /// Whether the word index speaks of known files only.
    pub open spec fn wf(&self) -> bool {
        ids_known(self@)
    }

    /// Nothing shared.
    pub fn new() -> (index: ShareIndex)
        ensures
            index.wf(),
            index_is_right(index@),
            index@ == (SharesView { files: Seq::empty(), words: Seq::empty() }),
    {
        let index = ShareIndex { files: Vec::new(), word_index: WordIndex::new() };
        assert(index@.files =~= Seq::<EntryView>::empty());
        index
    }

    pub fn num_files(&self) -> (n: usize)
        ensures
            n == self@.files.len(),
    {
        self.files.len()
    }

    /// The word index.
    pub fn words(&self) -> (words: &WordIndex)
        ensures
            words@ == self@.words,
    {
        &self.word_index
    }

    /// Shares one more file, under the words of its path.
    pub fn add(&mut self, real_path: String, virtual_path: String, size: u64)
        requires
            old(self).wf(),
            old(self)@.files.len() < u32::MAX,
        ensures
            final(self).wf(),
            final(self)@ == with_file(
                old(self)@,
                EntryView { real_path: real_path@, virtual_path: virtual_path@, size },
            ),
            index_is_right(old(self)@) ==> index_is_right(final(self)@),
    {
        let id: u32 = self.files.len() as u32;
        let words = tokenize(virtual_path.as_str());
        let ghost path = views(words@);
        let ghost total = self.files@.len() + 1;
        self.files.push(SharedFileEntry { real_path, virtual_path, size });
        let mut i: usize = 0;
        assert(path.take(0) =~= Seq::<Seq<char>>::empty());
        while i < words.len()
            invariant
                i <= words@.len(),
                path == views(words@),
                id < total == self.files@.len(),
                self.files@ == old(self).files@.push(
                    SharedFileEntry { real_path, virtual_path, size },
                ),
                self.word_index@ == indexed(old(self)@.words, path.take(i as int), id),
                forall|w: int, k: int|
                    0 <= w < self.word_index@.len() && 0 <= k < self.word_index@[w].1.len() ==> (
                    #[trigger] self.word_index@[w].1[k]) < total,
            decreases words@.len() - i,
        {
            assert(path.take(i as int + 1).drop_last() =~= path.take(i as int));
            let known = match self.word_index.get(words[i].as_str()) {
                Some(ids) => ids.len() > 0 && ids[ids.len() - 1] == id,
                None => false,
            };
            if !known {
                proof {
                    lemma_noted_known(self.word_index@, words@[i as int]@, id, total as int);
                }
                self.word_index.note(words[i].clone(), id);
            }
            i += 1;
        }
        assert(path.take(i as int) =~= path);
        assert(self@.files =~= old(self)@.files.push(
            EntryView { real_path: real_path@, virtual_path: virtual_path@, size },
        ));
        proof {
            if index_is_right(old(self)@) {
                law_files_are_listed_under_their_words(
                    old(self)@,
                    EntryView { real_path: real_path@, virtual_path: virtual_path@, size },
                );
            }
        }
    }

    /// Shares a file that is on disk under its virtual path.
    pub fn add_virtual(&mut self, path: &str, size: u64)
        requires
            old(self).wf(),
            old(self)@.files.len() < u32::MAX,
        ensures
            final(self).wf(),
            final(self)@ == with_file(
                old(self)@,
                EntryView { real_path: path@, virtual_path: path@, size },
            ),
            index_is_right(old(self)@) ==> index_is_right(final(self)@),
    {
        self.add(path.to_owned(), path.to_owned(), size)
    }

    /// What peers call a file.
    pub fn virtual_path(&self, id: u32) -> (path: &str)
        requires
            (id as int) < self@.files.len(),
        ensures
            path@ == self@.files[id as int].virtual_path,
    {
        self.files[id as usize].virtual_path.as_str()
    }

    /// The file that a virtual path names, if we share one.
    pub fn resolve(&self, path: &str) -> (found: Option<(&str, u64)>)
        ensures
            match found {
                Some((real_path, size)) => resolved(self@.files, path@) == Some((real_path@, size)),
                None => resolved(self@.files, path@) is None,
            },
    {
        let mut i: usize = 0;
        while i < self.files.len()
            invariant
                i <= self.files@.len(),
                self@.files == views(self.files@),
                forall|j: int| 0 <= j < i ==> (#[trigger] self@.files[j]).virtual_path != path@,
            decreases self.files@.len() - i,
        {
            if same(self.files[i].virtual_path.as_str(), path) {
                proof {
                    lemma_file_slot(self@.files, path@, i as int);
                }
                return Some((self.files[i].real_path.as_str(), self.files[i].size));
            }
            i += 1;
        }
        proof {
            lemma_file_slot(self@.files, path@, i as int);
        }
        None
    }

    /// A file as it is named to a peer.
    pub fn shared_file(&self, id: u32) -> (file: SharedFile)
        requires
            (id as int) < self@.files.len(),
        ensures
            file@ == as_shared(self@.files[id as int]),
    {
        let entry = &self.files[id as usize];
        SharedFile { name: entry.virtual_path.clone(), size: entry.size }
    }

    /// The files that stand right in a folder.
    pub fn folder(&self, folder: &str) -> (files: Vec<SharedFile>)
        ensures
            views(files@) == folder_of(self@.files, folder@),
    {
        let ghost all = self@.files;
        let ghost p = inside(folder@);
        let mut files: Vec<SharedFile> = Vec::new();
        let mut i: usize = 0;
        proof {
            reveal(Seq::filter);
            assert(all.take(0).filter(p) =~= Seq::<EntryView>::empty());
            assert(views(files@) =~= folder_of(all.take(0), folder@));
        }
        while i < self.files.len()
            invariant
                i <= self.files@.len(),
                all == self@.files,
                all == views(self.files@),
                p == inside(folder@),
                views(files@) == folder_of(all.take(i as int), folder@),
            decreases self.files@.len() - i,
        {
            let entry = &self.files[i];
            let ghost before = all.take(i as int).filter(p);
            proof {
                reveal(Seq::filter);
                assert(all.take(i as int + 1).drop_last() =~= all.take(i as int));
                assert(all.take(i as int + 1).last() == entry@);
            }
            if same(dirname(entry.virtual_path.as_str()), folder) {
                assert(p(entry@));
                assert(all.take(i as int + 1).filter(p) == before.push(entry@));
                files.push(
                    SharedFile {
                        name: basename(entry.virtual_path.as_str()).to_owned(),
                        size: entry.size,
                    },
                );
                assert(views(files@) =~= folder_of(all.take(i as int + 1), folder@));
            }
            i += 1;
        }
        assert(all.take(i as int) =~= all);
        files
    }
}

/// A folder with the files that stand right in it.
pub open spec fn folder_entry(files: Seq<EntryView>, folder: Seq<char>) -> SharedFolderView {
    SharedFolderView { path: folder, files: folder_of(files, folder) }
}

/// The list of everything that we share: each folder once, with its files.
pub open spec fn share_list_of(files: Seq<EntryView>) -> Seq<SharedFolderView> {
    folders_of(files).map_values(|folder: Seq<char>| folder_entry(files, folder))
}

/// A file by its name in its folder.
pub open spec fn in_folder(e: EntryView) -> SharedFileView {
    SharedFileView { name: basename_of(e.virtual_path), size: e.size }
}

/// One more file joins its own folder, and no other.
proof fn lemma_folder_grows(files: Seq<EntryView>, folder: Seq<char>)
    requires
        files.len() > 0,
    ensures
        folder_of(files, folder) == (if dirname_of(files.last().virtual_path) == folder {
            folder_of(files.drop_last(), folder).push(in_folder(files.last()))
        } else {
            folder_of(files.drop_last(), folder)
        }),
{
    reveal(Seq::filter);
    let p = inside(folder);
    let before = files.drop_last().filter(p);
    if p(files.last()) {
        assert(files.filter(p) == before.push(files.last()));
        assert(folder_of(files, folder) =~= folder_of(files.drop_last(), folder).push(
            in_folder(files.last()),
        ));
    }
}

/// A folder that no file stands in is empty.
proof fn lemma_unmet_folder_is_empty(files: Seq<EntryView>, folder: Seq<char>)
    requires
        !folders_of(files).contains(folder),
    ensures
        folder_of(files, folder) == Seq::<SharedFileView>::empty(),
    decreases files.len(),
{
    if files.len() > 0 {
        let before = folders_of(files.drop_last());
        let last = dirname_of(files.last().virtual_path);
        law_folders_hold_every_file(files);
        assert(folders_of(files).contains(last));
        assert forall|k: int| 0 <= k < before.len() implies before[k] != folder by {
            assert(folders_of(files)[k] == before[k]);
        }
        lemma_folder_grows(files, folder);
        lemma_unmet_folder_is_empty(files.drop_last(), folder);
    } else {
        reveal(Seq::filter);
        assert(folder_of(files, folder) =~= Seq::<SharedFileView>::empty());
    }
}

/// The list with one more file: the file stands last in its folder, at `k`, or in a folder of its
/// own, behind the others.
proof fn lemma_share_list_grows(files: Seq<EntryView>, k: int)
    requires
        files.len() > 0,
        ({
            let before = folders_of(files.drop_last());
            let folder = dirname_of(files.last().virtual_path);
            &&& 0 <= k <= before.len()
            &&& k < before.len() ==> before[k] == folder
            &&& k == before.len() ==> !before.contains(folder)
        }),
    ensures
        share_list_of(files) == ({
            let list = share_list_of(files.drop_last());
            let folder = dirname_of(files.last().virtual_path);
            let file = in_folder(files.last());
            if k < list.len() {
                list.update(
                    k,
                    SharedFolderView { path: folder, files: list[k].files.push(file) },
                )
            } else {
                list.push(SharedFolderView { path: folder, files: seq![file] })
            }
        }),
{
    let d = files.drop_last();
    let before = folders_of(d);
    let folder = dirname_of(files.last().virtual_path);
    let file = in_folder(files.last());
    let list = share_list_of(d);
    let now = share_list_of(files);
    law_folders_hold_every_file(d);
    assert forall|i: int| 0 <= i < before.len() implies #[trigger] now[i] == (if i == k {
        SharedFolderView { path: folder, files: list[i].files.push(file) }
    } else {
        list[i]
    }) by {
        assert(folders_of(files)[i] == before[i]);
        lemma_folder_grows(files, before[i]);
        assert(list[i] == folder_entry(d, before[i]));
    }
    if k < before.len() {
        assert(before.contains(folder));
        assert(now =~= list.update(
            k,
            SharedFolderView { path: folder, files: list[k].files.push(file) },
        ));
    } else {
        lemma_unmet_folder_is_empty(d, folder);
        lemma_folder_grows(files, folder);
        assert(folder_of(files, folder) =~= seq![file]);
        assert(now =~= list.push(SharedFolderView { path: folder, files: seq![file] }));
    }
}

/// Where a folder stands in a list, or the list's length. It is looked for at `hint` first.
fn folder_slot(list: &Vec<SharedFolder>, folder: &str, hint: usize) -> (k: usize)
    ensures
        k <= list@.len(),
        k < list@.len() ==> views(list@)[k as int].path == folder@,
        k == list@.len() ==> forall|i: int|
            0 <= i < list@.len() ==> (#[trigger] views(list@)[i]).path != folder@,
{
    if hint < list.len() && same(list[hint].path.as_str(), folder) {
        return hint;
    }
    let mut i: usize = 0;
    while i < list.len()
        invariant
            i <= list@.len(),
            forall|j: int| 0 <= j < i ==> (#[trigger] views(list@)[j]).path != folder@,
        decreases list@.len() - i,
    {
        if same(list[i].path.as_str(), folder) {
            return i;
        }
        assert(views(list@)[i as int].path != folder@);
        i += 1;
    }
    i
}

impl ShareIndex {
    /// The list of everything that we share.
    pub fn share_list(&self) -> (list: Vec<SharedFolder>)
        ensures
            views(list@) == share_list_of(self@.files),
    {
        let ghost all = self@.files;
        let mut list: Vec<SharedFolder> = Vec::new();
        let mut at: usize = 0;
        let mut i: usize = 0;
        assert(views(list@) =~= share_list_of(all.take(0)));
        while i < self.files.len()
            invariant
                i <= self.files@.len(),
                all == self@.files,
                all == views(self.files@),
                views(list@) == share_list_of(all.take(i as int)),
            decreases self.files@.len() - i,
        {
            let entry = &self.files[i];
            let ghost some = all.take(i as int + 1);
            let ghost before = views(list@);
            let folder = dirname(entry.virtual_path.as_str());
            let file = SharedFile {
                name: basename(entry.virtual_path.as_str()).to_owned(),
                size: entry.size,
            };
            let ghost shown = file@;
            at = folder_slot(&list, folder, at);
            proof {
                assert(some.drop_last() =~= all.take(i as int));
                assert(some.last() == entry@);
                let met = folders_of(some.drop_last());
                assert(before == share_list_of(some.drop_last()));
                assert(before.len() == met.len());
                assert(before.len() == list@.len());
                assert forall|j: int| 0 <= j < met.len() implies #[trigger] met[j]
                    == before[j].path by {
                    assert(before[j] == folder_entry(some.drop_last(), met[j]));
                }
                if at == met.len() {
                    assert forall|j: int| 0 <= j < met.len() implies met[j] != folder@ by {
                        assert(views(list@)[j].path != folder@);
                    }
                } else {
                    assert(met[at as int] == folder@);
                }
                lemma_share_list_grows(some, at as int);
            }
            if at < list.len() {
                let ghost had = before[at as int].files;
                list[at].files.push(file);
                assert(list@[at as int]@.files =~= had.push(shown));
                assert(views(list@) =~= share_list_of(some));
            } else {
                let files: Vec<SharedFile> = vec![file];
                assert(views(files@) =~= seq![shown]);
                list.push(SharedFolder { path: folder.to_owned(), files });
                assert(views(list@) =~= share_list_of(some));
            }
            i += 1;
        }
        assert(all.take(i as int) =~= all);
        list
    }
}

/// The list of everything that we share names every file, in the folder that it stands in.
pub proof fn law_share_list_names_every_file(files: Seq<EntryView>, i: int)
    requires
        0 <= i < files.len(),
    ensures
        ({
            let folder = dirname_of(files[i].virtual_path);
            &&& share_list_of(files).contains(folder_entry(files, folder))
            &&& folder_of(files, folder).contains(in_folder(files[i]))
        }),
{
    let folder = dirname_of(files[i].virtual_path);
    law_folders_hold_every_file(files);
    let k = choose|k: int| 0 <= k < folders_of(files).len() && folders_of(files)[k] == folder;
    assert(share_list_of(files)[k] == folder_entry(files, folder));
    let p = inside(folder);
    assert(p(files[i]));
    files.lemma_filter_contains(p, i);
    let met = files.filter(p);
    let j = choose|j: int| 0 <= j < met.len() && met[j] == files[i];
    assert(folder_of(files, folder)[j] == in_folder(files[i]));
}

/// Every file that is shared stands in one of the folders, and no folder is named twice.
pub proof fn law_folders_hold_every_file(files: Seq<EntryView>)
    ensures
        folders_of(files).no_duplicates(),
        forall|i: int|
            0 <= i < files.len() ==> folders_of(files).contains(
                dirname_of((#[trigger] files[i]).virtual_path),
            ),
    decreases files.len(),
{
    if files.len() > 0 {
        let before = folders_of(files.drop_last());
        let folder = dirname_of(files.last().virtual_path);
        law_folders_hold_every_file(files.drop_last());
        assert forall|i: int| 0 <= i < files.len() implies folders_of(files).contains(
            dirname_of((#[trigger] files[i]).virtual_path),
        ) by {
            let d = dirname_of(files[i].virtual_path);
            if i < files.len() - 1 {
                assert(files.drop_last()[i] == files[i]);
                let k = choose|k: int| 0 <= k < before.len() && before[k] == d;
                assert(folders_of(files)[k] == d);
            } else if !before.contains(folder) {
                assert(folders_of(files)[before.len() as int] == d);
            }
        }
    }
}

/// A file that is shared can be resolved by its path, unless another of that path came first.
pub proof fn law_shared_files_resolve(shares: SharesView, entry: EntryView)
    requires
        resolved(shares.files, entry.virtual_path) is None,
    ensures
        resolved(with_file(shares, entry).files, entry.virtual_path) == Some(
            (entry.real_path, entry.size),
        ),
{
    let files = shares.files;
    lemma_file_slot_is(files, entry.virtual_path);
    lemma_file_slot(files.push(entry), entry.virtual_path, files.len() as int);
}

proof fn lemma_file_slot_is(files: Seq<EntryView>, path: Seq<char>)
    ensures
        0 <= file_slot(files, path) <= files.len(),
        forall|j: int|
            0 <= j < file_slot(files, path) ==> (#[trigger] files[j]).virtual_path != path,
    decreases files.len(),
{
    if files.len() > 0 && files[0].virtual_path != path {
        let rest = files.skip(1);
        lemma_file_slot_is(rest, path);
        assert forall|j: int| 0 <= j < file_slot(files, path) implies (
        #[trigger] files[j]).virtual_path != path by {
            if j > 0 {
                assert(rest[j - 1].virtual_path != path);
            }
        }
    }
}

/// Whether a word index lists a file under a word.
pub open spec fn under(words: WordsView, word: Seq<char>, id: u32) -> bool {
    exists|w: int, k: int|
        0 <= w < words.len() && 0 <= k < words[w].1.len() && words[w].0 == word
            && #[trigger] words[w].1[k] == id
}

/// Whether each word stands in an index once, with its files in ascending order and none beyond
/// `last`.
pub open spec fn in_order_upto(words: WordsView, last: int) -> bool {
    &&& forall|a: int, b: int|
        0 <= a < b < words.len() ==> (#[trigger] words[a]).0 != (#[trigger] words[b]).0
    &&& forall|w: int, a: int, b: int|
        0 <= w < words.len() && 0 <= a < b < words[w].1.len() ==> (#[trigger] words[w].1[a]) < (
        #[trigger] words[w].1[b])
    &&& forall|w: int, k: int|
        0 <= w < words.len() && 0 <= k < words[w].1.len() ==> (#[trigger] words[w].1[k]) <= last
}

/// Whether the word index says what the paths say: a file is listed under a word if and only if
/// the word is one of its path.
pub open spec fn index_is_right(shares: SharesView) -> bool {
    &&& in_order_upto(shares.words, shares.files.len() - 1)
    &&& forall|word: Seq<char>, id: u32| #[trigger]
        under(shares.words, word, id) <==> (id < shares.files.len() && path_words(
            shares.files[id as int].virtual_path,
        ).contains(word))
}

proof fn lemma_noted_adds_one(words: WordsView, word: Seq<char>, id: u32)
    requires
        in_order_upto(words, id as int),
        !listed_last(words, word, id),
    ensures
        in_order_upto(noted(words, word, id), id as int),
        forall|x: Seq<char>, y: u32| #[trigger]
            under(noted(words, word, id), x, y) <==> (under(words, x, y) || (x == word && y == id)),
{
    lemma_word_slot_is(words, word);
    let i = word_slot(words, word);
    let after = noted(words, word, id);
    if i < words.len() {
        let had = words[i].1;
        assert(after[i].1[had.len() as int] == id);
        assert forall|k: int| 0 <= k < had.len() implies #[trigger] had[k] < id by {
            assert(words[i].1[k] <= id);
            assert(words[i].1[had.len() - 1] <= id);
            if k < had.len() - 1 {
                assert(words[i].1[k] < words[i].1[had.len() - 1]);
            }
        }
    } else {
        assert(after[i].1[0] == id);
    }
    assert forall|x: Seq<char>, y: u32| #[trigger] under(after, x, y) <==> (under(words, x, y) || (x
        == word && y == id)) by {
        if under(words, x, y) {
            let (w, k) = choose|w: int, k: int|
                0 <= w < words.len() && 0 <= k < words[w].1.len() && words[w].0 == x
                    && #[trigger] words[w].1[k] == y;
            assert(after[w].1[k] == y);
        }
        if x == word && y == id {
            if i < words.len() {
                assert(after[i].1[words[i].1.len() as int] == id);
            } else {
                assert(after[i].1[0] == id);
            }
        }
        if under(after, x, y) {
            let (w, k) = choose|w: int, k: int|
                0 <= w < after.len() && 0 <= k < after[w].1.len() && after[w].0 == x
                    && #[trigger] after[w].1[k] == y;
            if w < words.len() && k < words[w].1.len() {
                assert(words[w].1[k] == y);
            }
        }
    }
    assert forall|w: int, a: int, b: int|
        0 <= w < after.len() && 0 <= a < b < after[w].1.len() implies (#[trigger] after[w].1[a]) < (
    #[trigger] after[w].1[b]) by {
        if w < words.len() {
            if b < words[w].1.len() {
                assert(words[w].1[a] < words[w].1[b]);
            } else {
                assert(words[w].1[a] == after[w].1[a]);
            }
        }
    }
    assert forall|w: int, k: int| 0 <= w < after.len() && 0 <= k < after[w].1.len() implies (
    #[trigger] after[w].1[k]) <= id by {
        if w < words.len() && k < words[w].1.len() {
            assert(words[w].1[k] <= id);
        }
    }
    assert forall|a: int, b: int| 0 <= a < b < after.len() implies (#[trigger] after[a]).0 != (
    #[trigger] after[b]).0 by {
        if b < words.len() {
            assert(words[a].0 != words[b].0);
        }
    }
}

proof fn lemma_indexed_adds_all(words: WordsView, path: Seq<Seq<char>>, id: u32)
    requires
        in_order_upto(words, id as int),
    ensures
        in_order_upto(indexed(words, path, id), id as int),
        forall|x: Seq<char>, y: u32| #[trigger]
            under(indexed(words, path, id), x, y) <==> (under(words, x, y) || (path.contains(x) && y
                == id)),
    decreases path.len(),
{
    if path.len() > 0 {
        let first = path.drop_last();
        let before = indexed(words, first, id);
        let last = path.last();
        lemma_indexed_adds_all(words, first, id);
        if listed_last(before, last, id) {
            lemma_word_slot_is(before, last);
            let i = word_slot(before, last);
            assert(before[i].1[before[i].1.len() - 1] == id);
            assert(under(before, last, id));
        } else {
            lemma_noted_adds_one(before, last, id);
        }
        assert forall|x: Seq<char>, y: u32| #[trigger] under(indexed(words, path, id), x, y) <==> (
        under(words, x, y) || (path.contains(x) && y == id)) by {
            assert(under(before, x, y) <==> (under(words, x, y) || (first.contains(x) && y
                == id)));
            if first.contains(x) {
                let k = choose|k: int| 0 <= k < first.len() && first[k] == x;
                assert(path[k] == x);
            }
            if x == last {
                assert(path[path.len() - 1] == x);
            }
            if path.contains(x) && x != last {
                let k = choose|k: int| 0 <= k < path.len() && path[k] == x;
                assert(first[k] == x);
            }
        }
    }
}

/// Nothing is listed while nothing is shared, and a file that is shared is listed under every word
/// of its path and under no other, beside what was listed.
pub proof fn law_files_are_listed_under_their_words(shares: SharesView, entry: EntryView)
    requires
        index_is_right(shares),
        shares.files.len() < u32::MAX,
    ensures
        index_is_right(with_file(shares, entry)),
        index_is_right(SharesView { files: Seq::empty(), words: Seq::empty() }),
{
    let id = shares.files.len() as u32;
    let after = with_file(shares, entry);
    assert(in_order_upto(shares.words, id as int));
    lemma_indexed_adds_all(shares.words, path_words(entry.virtual_path), id);
    assert forall|word: Seq<char>, y: u32| #[trigger] under(after.words, word, y) <==> (y
        < after.files.len() && path_words(after.files[y as int].virtual_path).contains(word)) by {
        assert(under(shares.words, word, y) <==> (y < shares.files.len() && path_words(
            shares.files[y as int].virtual_path,
        ).contains(word)));
    }
}

/// The words of a path are found whatever separates them: punctuation parts them as white space
/// does.
pub proof fn law_punctuation_parts_the_words_of_a_path(a: Seq<char>, c: char, b: Seq<char>)
    requires
        is_punctuation(c) || crate::text::is_ws(c),
    ensures
        words_of(spaced(a.push(c) + b)) == words_of(spaced(a)) + words_of(spaced(b)),
{
    let d = if is_punctuation(c) {
        ' '
    } else {
        c
    };
    assert(spaced(a.push(c) + b) =~= spaced(a).push(d) + spaced(b));
    crate::text::law_white_space_parts_words(spaced(a), d, spaced(b));
}

/// A path that peers name leads to the first file that is shared under it, and to none where no
/// file is.
pub proof fn law_a_path_leads_to_its_file(files: Seq<EntryView>, path: Seq<char>, k: int)
    ensures
        0 <= k < files.len() && files[k].virtual_path == path && (forall|i: int|
            0 <= i < k ==> (#[trigger] files[i]).virtual_path != path) ==> resolved(files, path)
            == Some((files[k].real_path, files[k].size)),
        (forall|i: int| 0 <= i < files.len() ==> (#[trigger] files[i]).virtual_path != path)
            ==> resolved(files, path) is None,
{
    if 0 <= k < files.len() && files[k].virtual_path == path && (forall|i: int|
        0 <= i < k ==> (#[trigger] files[i]).virtual_path != path) {
        lemma_file_slot(files, path, k);
    }
    if forall|i: int| 0 <= i < files.len() ==> (#[trigger] files[i]).virtual_path != path {
        lemma_file_slot(files, path, files.len() as int);
    }
}

/// A folder lists the files that stand right in it, in the order in which they were shared, each by
/// its name in the folder and with its own size.
pub proof fn law_a_folder_lists_its_own_files(files: Seq<EntryView>, folder: Seq<char>, i: int)
    ensures
        ({
            let own = files.filter(|e: EntryView| dirname_of(e.virtual_path) == folder);
            let listed = folder_of(files, folder);
            &&& listed.len() == own.len()
            &&& 0 <= i < own.len() ==> listed[i].name == basename_of(own[i].virtual_path)
                && listed[i].size == own[i].size
        }),
{
    assert(inside(folder) =~= (|e: EntryView| dirname_of(e.virtual_path) == folder));
}

/// The share list has one entry for each folder that holds a file, with the files of that folder,
/// and no entry for any other; folders come in the order of their first files.
pub proof fn law_the_share_list_is_by_folder(files: Seq<EntryView>, entry: EntryView, i: int)
    ensures
        share_list_of(files).len() == folders_of(files).len(),
        0 <= i < folders_of(files).len() ==> share_list_of(files)[i].path == folders_of(files)[i]
            && share_list_of(files)[i].files == folder_of(files, folders_of(files)[i]) && exists|
            k: int,
        |
            0 <= k < files.len() && dirname_of((#[trigger] files[k]).virtual_path) == folders_of(
                files,
            )[i],
        folders_of(files.push(entry)) == (if folders_of(files).contains(
            dirname_of(entry.virtual_path),
        ) {
            folders_of(files)
        } else {
            folders_of(files).push(dirname_of(entry.virtual_path))
        }),
    decreases files.len(),
{
    assert(files.push(entry).drop_last() =~= files);
    assert(files.push(entry).last() == entry);
    if files.len() > 0 && 0 <= i < folders_of(files).len() {
        let d = files.drop_last();
        law_the_share_list_is_by_folder(d, entry, i);
        if i < folders_of(d).len() {
            let k = choose|k: int|
                0 <= k < d.len() && dirname_of((#[trigger] d[k]).virtual_path) == folders_of(d)[i];
            assert(files[k] == d[k]);
        } else {
            assert(files[files.len() - 1] == files.last());
        }
    }
}

/// A path that a file is shared under leads to a file.
pub proof fn law_shared_paths_resolve(files: Seq<EntryView>, path: Seq<char>)
    requires
        exists|k: int| 0 <= k < files.len() && (#[trigger] files[k]).virtual_path == path,
    ensures
        resolved(files, path) is Some,
        exists|k: int|
            0 <= k < files.len() && (#[trigger] files[k]).virtual_path == path && resolved(
                files,
                path,
            ) == Some((files[k].real_path, files[k].size)),
{
    lemma_file_slot_is(files, path);
    let k = choose|k: int| 0 <= k < files.len() && (#[trigger] files[k]).virtual_path == path;
    let s = file_slot(files, path);
    if s > k {
        assert(files[k].virtual_path != path);
    }
    lemma_file_slot_hits(files, path);
    assert(files[s].virtual_path == path);
}

proof fn lemma_file_slot_hits(files: Seq<EntryView>, path: Seq<char>)
    ensures
        file_slot(files, path) < files.len() ==> files[file_slot(files, path)].virtual_path == path,
    decreases files.len(),
{
    if files.len() > 0 && files[0].virtual_path != path {
        lemma_file_slot_hits(files.skip(1), path);
        lemma_file_slot_is(files.skip(1), path);
    }
}

/// Every part of a path counts: its words are those before a sign or a space and those behind it,
/// and a path without either is one word, all in lower case.
pub proof fn law_every_part_of_a_path_counts(
    path: Seq<char>,
    a: Seq<char>,
    c: char,
    b: Seq<char>,
)
    requires
        is_punctuation(c) || crate::text::is_ws(c),
        lowercase(path) == a.push(c) + b,
    ensures
        path_words(path) == words_of(spaced(a)) + words_of(spaced(b)),
{
    law_punctuation_parts_the_words_of_a_path(a, c, b);
}

/// A path of one word is that word, in lower case.
pub proof fn law_a_plain_path_is_one_word(path: Seq<char>)
    requires
        lowercase(path).len() > 0,
        forall|k: int|
            0 <= k < lowercase(path).len() ==> !is_punctuation(#[trigger] lowercase(path)[k])
                && !crate::text::is_ws(lowercase(path)[k]),
    ensures
        path_words(path) == seq![lowercase(path)],
{
    let s = lowercase(path);
    assert(spaced(s) =~= s);
    crate::text::law_a_run_is_one_word(s);
}

/// The signs that part words are those of ASCII that are neither letters nor digits.
pub proof fn law_signs_are_neither_letters_nor_digits(c: char)
    ensures
        is_punctuation(c) <==> '!' <= c <= '~' && !('0' <= c <= '9' || 'A' <= c <= 'Z' || 'a' <= c
            <= 'z'),
{
}

} // verus!
