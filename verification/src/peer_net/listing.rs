//! A peer's share list, cut to what the bus carries.
use vstd::prelude::*;
use vstd::string::*;
use crate::text::{byte_len, group_views, utf8_len, views};

verus! {

broadcast use group_views;

/// Byte budget for a listing that is forwarded onto the bus.
pub const MAX_LISTING_BYTES: usize = 1536 * 1024;

/// A shared file in a listing.
#[derive(Debug, PartialEq)]
pub struct BrowseFile {
    pub name: String,
    pub size: u64,
}

pub struct BrowseFileView {
    pub name: Seq<char>,
    pub size: u64,
}

impl View for BrowseFile {
    type V = BrowseFileView;

    open spec fn view(&self) -> BrowseFileView {
        BrowseFileView { name: self.name@, size: self.size }
    }
}

/// A shared folder in a listing.
#[derive(Debug, PartialEq)]
pub struct BrowseDir {
    pub path: String,
    pub files: Vec<BrowseFile>,
}

pub struct BrowseDirView {
    pub path: Seq<char>,
    pub files: Seq<BrowseFileView>,
}

impl View for BrowseDir {
    type V = BrowseDirView;

    open spec fn view(&self) -> BrowseDirView {
        BrowseDirView { path: self.path@, files: views(self.files@) }
    }
}

/// The share list that a peer sent: its public folders, and those for its friends.
#[derive(Debug, PartialEq)]
pub struct ShareList {
    pub directories: Vec<BrowseDir>,
    pub private_directories: Vec<BrowseDir>,
}

/// What the rest of the program learns of a peer's shares.
#[derive(Debug, PartialEq)]
pub struct BrowseListing {
    pub username: String,
    pub directories: Vec<BrowseDir>,
    /// How many files the peer shares, listed here or not.
    pub total_files: u64,
    /// Whether the listing leaves something out.
    pub truncated: bool,
}

pub struct BrowseListingView {
    pub username: Seq<char>,
    pub directories: Seq<BrowseDirView>,
    pub total_files: u64,
    pub truncated: bool,
}

impl View for BrowseListing {
    type V = BrowseListingView;

    open spec fn view(&self) -> BrowseListingView {
        BrowseListingView {
            username: self.username@,
            directories: views(self.directories@),
            total_files: self.total_files,
            truncated: self.truncated,
        }
    }
}

/// Roughly what one file takes in an encoded listing.
pub open spec fn cost_of(name: Seq<char>) -> nat {
    byte_len(name) + 16
}

/// The cost of a file with this name.
pub fn file_cost(name: &str) -> (r: usize)
    requires
        byte_len(name@) + 16 <= usize::MAX,
    ensures
        r == cost_of(name@),
{
    utf8_len(name) + 16
}

/// What these files take together.
pub open spec fn cost_of_all(files: Seq<BrowseFileView>) -> nat
    decreases files.len(),
{
    if files.len() == 0 {
        0
    } else {
        cost_of_all(files.drop_last()) + cost_of(files.last().name)
    }
}

/// How many of these files fit a budget, from the first on.
pub open spec fn fitting(files: Seq<BrowseFileView>, budget: nat) -> nat
    decreases files.len(),
{
    if files.len() == 0 {
        0
    } else {
        let n = fitting(files.drop_last(), budget);
        if n == files.len() - 1 && cost_of_all(files) <= budget {
            n + 1
        } else {
            n
        }
    }
}

/// Roughly what a folder takes in an encoded listing, its files aside.
pub open spec fn cost_of_path(path: Seq<char>) -> nat {
    byte_len(path) + 8
}

/// How many files these folders hold.
pub open spec fn count_files(dirs: Seq<BrowseDirView>) -> nat
    decreases dirs.len(),
{
    if dirs.len() == 0 {
        0
    } else {
        count_files(dirs.drop_last()) + dirs.last().files.len()
    }
}

/// The folders that a budget allows, in their order. Listing stops before the first folder whose
/// path does not fit, and within the first whose files do not all fit: that one is listed with
/// those that do.
pub open spec fn listed(dirs: Seq<BrowseDirView>, budget: nat) -> (Seq<BrowseDirView>, bool)
    decreases dirs.len(),
{
    if dirs.len() == 0 {
        (Seq::empty(), false)
    } else {
        let dir = dirs[0];
        let left = (budget - cost_of_path(dir.path)) as nat;
        let n = fitting(dir.files, left);
        if budget < cost_of_path(dir.path) {
            (Seq::empty(), true)
        } else if n < dir.files.len() {
            (seq![BrowseDirView { path: dir.path, files: dir.files.take(n as int) }], true)
        } else {
            let rest = listed(dirs.skip(1), (left - cost_of_all(dir.files)) as nat);
            (seq![dir] + rest.0, rest.1)
        }
    }
}

proof fn lemma_cost_grows(files: Seq<BrowseFileView>, k: int)
    requires
        0 <= k <= files.len(),
    ensures
        cost_of_all(files.take(k)) <= cost_of_all(files),
    decreases files.len() - k,
{
    if k < files.len() {
        lemma_cost_grows(files, k + 1);
        assert(files.take(k + 1).drop_last() =~= files.take(k));
    } else {
        assert(files.take(k) =~= files);
    }
}

proof fn lemma_fitting(files: Seq<BrowseFileView>, budget: nat, k: int)
    requires
        0 <= k <= files.len(),
        cost_of_all(files.take(k)) <= budget,
        k < files.len() ==> cost_of_all(files.take(k + 1)) > budget,
    ensures
        fitting(files, budget) == k,
    decreases files.len(),
{
    if files.len() > 0 {
        let d = files.drop_last();
        if k == files.len() {
            assert(files.take(k) =~= files);
            assert(d =~= files.take(k - 1));
            assert(d.take(k - 1) =~= d);
            lemma_cost_grows(files, k - 1);
            lemma_fitting(d, budget, k - 1);
        } else {
            assert(d.take(k) =~= files.take(k));
            if k < d.len() {
                assert(d.take(k + 1) =~= files.take(k + 1));
            }
            lemma_fitting(d, budget, k);
            if k == files.len() - 1 {
                assert(files.take(k + 1) =~= files);
            }
        }
    }
}

fn copy_file(f: &BrowseFile) -> (r: BrowseFile)
    ensures
        r@ == f@,
{
    BrowseFile { name: f.name.clone(), size: f.size }
}

/// The files that fit a budget, and what is left of it; `None` for what is left where not all
/// fit.
fn take_files(files: &Vec<BrowseFile>, budget: usize) -> (r: (Vec<BrowseFile>, Option<usize>))
    ensures
        views(r.0@) == views(files@).take(fitting(views(files@), budget as nat) as int),
        r.1 is None <==> fitting(views(files@), budget as nat) < files@.len(),
        r.1 matches Some(left) ==> left == budget - cost_of_all(views(files@)),
        fitting(views(files@), budget as nat) <= files@.len(),
{
    let ghost all = views(files@);
    let mut out: Vec<BrowseFile> = Vec::new();
    let mut left: usize = budget;
    let mut i: usize = 0;
    assert(all.take(0) =~= Seq::empty());
    assert(views(out@) =~= all.take(0));
    while i < files.len()
        invariant
            i <= files@.len(),
            all == views(files@),
            views(out@) == all.take(i as int),
            left == budget - cost_of_all(all.take(i as int)),
            cost_of_all(all.take(i as int)) <= budget,
        decreases files@.len() - i,
    {
        let f = &files[i];
        let len = utf8_len(f.name.as_str());
        proof {
            assert(all.take(i as int + 1).drop_last() =~= all.take(i as int));
            assert(all.take(i as int + 1).last() == f@);
        }
        if len > left || left - len < 16 {
            proof {
                lemma_fitting(all, budget as nat, i as int);
            }
            return (out, None);
        }
        left = left - file_cost(f.name.as_str());
        out.push(copy_file(f));
        assert(views(out@) =~= all.take(i as int + 1));
        i += 1;
    }
    proof {
        assert(all.take(i as int) =~= all);
        lemma_fitting(all, budget as nat, i as int);
    }
    (out, Some(left))
}

/// A peer's folders as the listing sees them, the public ones first.
pub open spec fn all_dirs(list: ShareList) -> Seq<BrowseDirView> {
    views(list.directories@) + views(list.private_directories@)
}

fn dir_at<'a>(list: &'a ShareList, i: usize) -> (r: &'a BrowseDir)
    requires
        i < all_dirs(*list).len(),
    ensures
        r@ == all_dirs(*list)[i as int],
{
    if i < list.directories.len() {
        &list.directories[i]
    } else {
        &list.private_directories[i - list.directories.len()]
    }
}

/// A listing of a peer's shares within a byte budget. The number of files is that of the whole
/// share list.
pub fn listing_within(username: &str, list: &ShareList, budget: usize) -> (r: BrowseListing)
    requires
        all_dirs(*list).len() <= usize::MAX,
        count_files(all_dirs(*list)) <= u64::MAX,
    ensures
        r.username@ == username@,
        r.total_files == count_files(all_dirs(*list)),
        views(r.directories@) == listed(all_dirs(*list), budget as nat).0,
        r.truncated == listed(all_dirs(*list), budget as nat).1,
{
    let ghost dirs = all_dirs(*list);
    let n: usize = list.directories.len() + list.private_directories.len();
    let mut total: u64 = 0;
    let mut i: usize = 0;
    assert(dirs.take(0) =~= Seq::empty());
    while i < n
        invariant
            i <= n == dirs.len(),
            dirs == all_dirs(*list),
            total == count_files(dirs.take(i as int)),
            count_files(dirs) <= u64::MAX,
        decreases n - i,
    {
        let d = dir_at(list, i);
        proof {
            assert(dirs.take(i as int + 1).drop_last() =~= dirs.take(i as int));
            lemma_count_grows(dirs, i as int + 1);
        }
        total = total + d.files.len() as u64;
        i += 1;
    }
    assert(dirs.take(i as int) =~= dirs);
    let mut directories: Vec<BrowseDir> = Vec::new();
    let mut left: usize = budget;
    let mut k: usize = 0;
    assert(dirs.skip(0) =~= dirs);
    assert(views(directories@) + listed(dirs, budget as nat).0 =~= listed(dirs, budget as nat).0);
    while k < n
        invariant
            k <= n == dirs.len(),
            dirs == all_dirs(*list),
            total == count_files(dirs),
            views(directories@) + listed(dirs.skip(k as int), left as nat).0 == listed(
                dirs,
                budget as nat,
            ).0,
            listed(dirs.skip(k as int), left as nat).1 == listed(dirs, budget as nat).1,
        decreases n - k,
    {
        let d = dir_at(list, k);
        let ghost rest = dirs.skip(k as int);
        let ghost whole = listed(rest, left as nat);
        let path_len = utf8_len(d.path.as_str());
        assert(rest[0] == d@);
        if path_len > left || left - path_len < 8 {
            assert(views(directories@) + whole.0 =~= views(directories@));
            return BrowseListing {
                username: username.to_owned(),
                directories,
                total_files: total,
                truncated: true,
            };
        }
        let (files, over) = take_files(&d.files, left - path_len - 8);
        let ghost before = views(directories@);
        directories.push(BrowseDir { path: d.path.clone(), files });
        match over {
            None => {
                assert(views(directories@) =~= before + whole.0);
                return BrowseListing {
                    username: username.to_owned(),
                    directories,
                    total_files: total,
                    truncated: true,
                };
            },
            Some(b) => {
                proof {
                    assert(d@.files.take(d@.files.len() as int) =~= d@.files);
                    assert(rest.skip(1) =~= dirs.skip(k as int + 1));
                    assert(views(directories@) =~= before.push(d@));
                    assert(before.push(d@) + listed(dirs.skip(k as int + 1), b as nat).0
                        =~= before + whole.0);
                }
                left = b;
            },
        }
        k += 1;
    }
    assert(views(directories@) + Seq::<BrowseDirView>::empty() =~= views(directories@));
    assert(dirs.skip(k as int).len() == 0);
    BrowseListing {
        username: username.to_owned(),
        directories,
        total_files: total,
        truncated: false,
    }
}

proof fn lemma_count_grows(dirs: Seq<BrowseDirView>, k: int)
    requires
        0 <= k <= dirs.len(),
    ensures
        count_files(dirs.take(k)) <= count_files(dirs),
    decreases dirs.len() - k,
{
    if k < dirs.len() {
        lemma_count_grows(dirs, k + 1);
        assert(dirs.take(k + 1).drop_last() =~= dirs.take(k));
    } else {
        assert(dirs.take(k) =~= dirs);
    }
}

/// A peer's share list as a listing for the bus.
pub fn to_listing(username: &str, list: &ShareList) -> (r: BrowseListing)
    requires
        all_dirs(*list).len() <= usize::MAX,
        count_files(all_dirs(*list)) <= u64::MAX,
    ensures
        r.username@ == username@,
        r.total_files == count_files(all_dirs(*list)),
        views(r.directories@) == listed(all_dirs(*list), MAX_LISTING_BYTES as nat).0,
        r.truncated == listed(all_dirs(*list), MAX_LISTING_BYTES as nat).1,
{
    listing_within(username, list, MAX_LISTING_BYTES)
}

/// What these folders take, their paths and their files.
pub open spec fn cost_of_dirs(dirs: Seq<BrowseDirView>) -> nat
    decreases dirs.len(),
{
    if dirs.len() == 0 {
        0
    } else {
        cost_of_path(dirs[0].path) + cost_of_all(dirs[0].files) + cost_of_dirs(dirs.skip(1))
    }
}

proof fn lemma_fitting_fits(files: Seq<BrowseFileView>, budget: nat)
    ensures
        fitting(files, budget) <= files.len(),
        cost_of_all(files.take(fitting(files, budget) as int)) <= budget,
    decreases files.len(),
{
    if files.len() > 0 {
        let d = files.drop_last();
        lemma_fitting_fits(d, budget);
        let n = fitting(files, budget);
        if n == files.len() {
            assert(files.take(n as int) =~= files);
        } else {
            assert(files.take(n as int) =~= d.take(n as int));
        }
    } else {
        assert(files.take(0) =~= Seq::empty());
    }
}

/// A listing never takes more than its budget, paths and files counted, and one that is not
/// marked truncated leaves nothing out.
pub proof fn law_listing_stays_within_the_budget(dirs: Seq<BrowseDirView>, budget: nat)
    ensures
        cost_of_dirs(listed(dirs, budget).0) <= budget,
        !listed(dirs, budget).1 ==> listed(dirs, budget).0 == dirs,
    decreases dirs.len(),
{
    if dirs.len() > 0 {
        let dir = dirs[0];
        let left = (budget - cost_of_path(dir.path)) as nat;
        let n = fitting(dir.files, left);
        lemma_fitting_fits(dir.files, left);
        if budget >= cost_of_path(dir.path) && n < dir.files.len() {
            let one = BrowseDirView { path: dir.path, files: dir.files.take(n as int) };
            assert(seq![one].skip(1) =~= Seq::empty());
            assert(cost_of_dirs(seq![one]) == cost_of_path(one.path) + cost_of_all(one.files)
                + cost_of_dirs(seq![one].skip(1)));
        } else if budget >= cost_of_path(dir.path) {
            assert(dir.files.take(n as int) =~= dir.files);
            let rest = listed(dirs.skip(1), (left - cost_of_all(dir.files)) as nat);
            law_listing_stays_within_the_budget(
                dirs.skip(1),
                (left - cost_of_all(dir.files)) as nat,
            );
            assert((seq![dir] + rest.0).skip(1) =~= rest.0);
            if !rest.1 {
                assert(seq![dir] + dirs.skip(1) =~= dirs);
            }
        }
    } else {
        assert(listed(dirs, budget).0 =~= dirs);
    }
}

/// A listing is a beginning of the share: its folders are the first ones, in their order and with
/// their files, but for the last, whose files are the first of its own. It stops only where the
/// next file, or the next folder, would go beyond the budget.
pub proof fn law_a_listing_is_a_beginning(dirs: Seq<BrowseDirView>, budget: nat, i: int)
    ensures
        ({
            let out = listed(dirs, budget).0;
            &&& out.len() <= dirs.len()
            &&& 0 <= i < out.len() ==> out[i].path == dirs[i].path && out[i].files.len()
                <= dirs[i].files.len() && out[i].files == dirs[i].files.take(
                out[i].files.len() as int,
            )
            &&& 0 <= i < out.len() - 1 ==> out[i] == dirs[i]
        }),
        cost_of_dirs(dirs) <= budget ==> !listed(dirs, budget).1,
    decreases dirs.len(),
{
    if dirs.len() > 0 {
        let dir = dirs[0];
        lemma_fitting_is(dir.files, (budget - cost_of_path(dir.path)) as nat);
        assert(dir.files.take(dir.files.len() as int) =~= dir.files);
        if budget >= cost_of_path(dir.path) {
            let left = (budget - cost_of_path(dir.path)) as nat;
            let n = fitting(dir.files, left);
            if n >= dir.files.len() {
                let after = (left - cost_of_all(dir.files)) as nat;
                let rest = listed(dirs.skip(1), after);
                law_a_listing_is_a_beginning(dirs.skip(1), after, i - 1);
                let out = listed(dirs, budget).0;
                assert(out == seq![dir] + rest.0);
                if 0 < i < out.len() {
                    assert(out[i] == rest.0[i - 1]);
                    assert(dirs.skip(1)[i - 1] == dirs[i]);
                }
            }
        }
    }
}

proof fn lemma_fitting_is(files: Seq<BrowseFileView>, budget: nat)
    ensures
        fitting(files, budget) <= files.len(),
        cost_of_all(files.take(fitting(files, budget) as int)) <= budget,
        cost_of_all(files) <= budget ==> fitting(files, budget) == files.len(),
        fitting(files, budget) < files.len() ==> cost_of_all(
            files.take(fitting(files, budget) as int + 1),
        ) > budget,
    decreases files.len(),
{
    if files.len() > 0 {
        let d = files.drop_last();
        lemma_fitting_is(d, budget);
        let n = fitting(d, budget);
        assert(files.take(files.len() as int) =~= files);
        assert(files.take(n as int) =~= d.take(n as int));
        if n < d.len() {
            assert(files.take(n as int + 1) =~= d.take(n as int + 1));
        }
    } else {
        assert(files.take(0) =~= files);
    }
}

/// As many files of a folder are listed as fit: one more would go beyond the budget.
pub proof fn law_as_many_files_are_listed_as_fit(files: Seq<BrowseFileView>, budget: nat)
    ensures
        fitting(files, budget) <= files.len(),
        cost_of_all(files.take(fitting(files, budget) as int)) <= budget,
        fitting(files, budget) < files.len() ==> cost_of_all(
            files.take(fitting(files, budget) as int + 1),
        ) > budget,
{
    lemma_fitting_is(files, budget);
}

/// The files that are counted are those of all folders.
pub proof fn law_files_of_all_folders_count(a: Seq<BrowseDirView>, b: Seq<BrowseDirView>)
    ensures
        count_files(a + b) == count_files(a) + count_files(b),
        a.len() == 1 ==> count_files(a) == a[0].files.len(),
    decreases b.len(),
{
    if a.len() == 1 {
        assert(a.drop_last() =~= Seq::<BrowseDirView>::empty());
        assert(count_files(a.drop_last()) == 0);
    }
    if b.len() == 0 {
        assert(a + b =~= a);
    } else {
        law_files_of_all_folders_count(a, b.drop_last());
        assert((a + b).drop_last() =~= a + b.drop_last());
        assert((a + b).last() == b.last());
    }
}

/// What a peer shares in private counts like what it shares with all, and comes behind it.
pub proof fn law_private_folders_come_last(list: ShareList, i: int)
    requires
        0 <= i < all_dirs(list).len(),
    ensures
        all_dirs(list).len() == list.directories@.len() + list.private_directories@.len(),
        i < list.directories@.len() ==> all_dirs(list)[i] == list.directories@[i]@,
        i >= list.directories@.len() ==> all_dirs(list)[i] == list.private_directories@[i
            - list.directories@.len()]@,
        count_files(all_dirs(list)) == count_files(views(list.directories@)) + count_files(
            views(list.private_directories@),
        ),
{
    law_files_of_all_folders_count(
        views(list.directories@),
        views(list.private_directories@),
    );
}

} // verus!
