//! Reading the answers of an slskd peer, and making up user names.
use vstd::prelude::*;
use vstd::string::*;

use crate::json::{elements, field, number_of, text_of, Json};
use crate::text::{
    chars_of, contains, decimal, group_views, last_index, law_decimal_reads_back, occurs,
    push_decimal_wide, same, string_of, views,
};

verus! {

broadcast use group_views;

/// A user name made of a prefix and a time.
pub open spec fn username_at(prefix: Seq<char>, nanos: u128) -> Seq<char> {
    prefix + "-"@ + decimal(nanos as nat)
}

/// A user name that nobody had before. `nanos` is the time, in nanoseconds.
pub fn unique_username(prefix: &str, nanos: u128) -> (r: String)
    ensures
        r@ == username_at(prefix@, nanos),
{
    let mut out = prefix.to_owned();
    out.append("-");
    push_decimal_wide(&mut out, nanos);
    out
}

/// Two user names with one prefix are the same only where they were made at the same time.
pub proof fn law_usernames_are_unique(prefix: Seq<char>, a: u128, b: u128)
    ensures
        username_at(prefix, a) == username_at(prefix, b) ==> a == b,
{
    if username_at(prefix, a) == username_at(prefix, b) {
        let k = prefix.len() + "-"@.len();
        assert(username_at(prefix, a).skip(k as int) =~= decimal(a as nat));
        assert(username_at(prefix, b).skip(k as int) =~= decimal(b as nat));
        law_decimal_reads_back(a as nat);
        law_decimal_reads_back(b as nat);
    }
}

/// A file in a share: its path on the network, and its size.
#[derive(Debug, PartialEq)]
pub struct SharedPath {
    pub path: String,
    pub size: u64,
}

pub struct SharedPathView {
    pub path: Seq<char>,
    pub size: u64,
}

impl View for SharedPath {
    type V = SharedPathView;

    open spec fn view(&self) -> SharedPathView {
        SharedPathView { path: self.path@, size: self.size }
    }
}

/// The text that a member is, or nothing.
pub open spec fn text_or_empty(value: Json, name: Seq<char>) -> Seq<char> {
    match text_of(field(value, name)) {
        Some(t) => t,
        None => ""@,
    }
}

/// The files of a folder: those with a name, behind that of the folder where it has one.
pub open spec fn folder_files(folder: Seq<char>, files: Seq<Json>) -> Seq<SharedPathView>
    decreases files.len(),
{
    if files.len() == 0 {
        Seq::empty()
    } else {
        let before = folder_files(folder, files.drop_last());
        match text_of(field(files.last(), "filename"@)) {
            Some(name) => before.push(
                SharedPathView {
                    path: if folder.len() == 0 {
                        name
                    } else {
                        folder + "\\"@ + name
                    },
                    size: match number_of(field(files.last(), "size"@)) {
                        Some(n) => n,
                        None => 0,
                    },
                },
            ),
            None => before,
        }
    }
}

/// The files of folders, one folder after the other.
pub open spec fn tree_files(dirs: Seq<Json>) -> Seq<SharedPathView>
    decreases dirs.len(),
{
    if dirs.len() == 0 {
        Seq::empty()
    } else {
        tree_files(dirs.drop_last()) + folder_files(
            text_or_empty(dirs.last(), "name"@),
            elements(field(dirs.last(), "files"@)),
        )
    }
}

/// The folders in an answer: its member `directories` where that is an array, or the answer
/// itself.
pub open spec fn tree_dirs(value: Json) -> Seq<Json> {
    if field(value, "directories"@) is Array {
        elements(field(value, "directories"@))
    } else {
        elements(value)
    }
}

fn text_or_nothing<'a>(value: &'a Json, name: &str) -> (r: &'a str)
    ensures
        r@ == text_or_empty(*value, name@),
{
    match value.member_text(name) {
        Some(t) => t,
        None => "",
    }
}

fn add_folder(folder: &str, files: &Vec<Json>, out: &mut Vec<SharedPath>)
    ensures
        views(final(out)@) == views(old(out)@) + folder_files(folder@, files@),
{
    let ghost before = views(out@);
    let mut i: usize = 0;
    assert(views(out@) =~= before + folder_files(folder@, files@.take(0)));
    while i < files.len()
        invariant
            i <= files@.len(),
            views(out@) == before + folder_files(folder@, files@.take(i as int)),
        decreases files@.len() - i,
    {
        let ghost so_far = views(out@);
        proof {
            assert(files@.take(i + 1).drop_last() =~= files@.take(i as int));
            assert(files@.take(i + 1).last() == files@[i as int]);
        }
        if let Some(name) = files[i].member_text("filename") {
            let size: u64 = match files[i].member_number("size") {
                Some(n) => n,
                None => 0,
            };
            let path = if folder.is_empty() {
                name.to_owned()
            } else {
                let mut p = folder.to_owned();
                p.append("\\");
                p.append(name);
                p
            };
            let file = SharedPath { path, size };
            let ghost f = file@;
            out.push(file);
            assert(views(out@) =~= so_far.push(f));
        }
        i += 1;
        assert(views(out@) =~= before + folder_files(folder@, files@.take(i as int)));
    }
    assert(files@.take(i as int) =~= files@);
}

/// The files in a share or browse answer, by their paths on the network.
pub fn flatten_share_tree(value: &Json) -> (r: Vec<SharedPath>)
    ensures
        views(r@) == tree_files(tree_dirs(*value)),
{
    let mut out: Vec<SharedPath> = Vec::new();
    let none: Vec<Json> = Vec::new();
    let dirs: &Vec<Json> = match value.member_elements("directories") {
        Some(dirs) => dirs,
        None => match value {
            Json::Array(items) => items,
            _ => &none,
        },
    };
    assert(dirs@ == tree_dirs(*value));
    let mut i: usize = 0;
    assert(views(out@) =~= tree_files(dirs@.take(0)));
    while i < dirs.len()
        invariant
            i <= dirs@.len(),
            views(out@) == tree_files(dirs@.take(i as int)),
        decreases dirs@.len() - i,
    {
        proof {
            assert(dirs@.take(i + 1).drop_last() =~= dirs@.take(i as int));
            assert(dirs@.take(i + 1).last() == dirs@[i as int]);
        }
        let name = text_or_nothing(&dirs[i], "name");
        match dirs[i].member_elements("files") {
            Some(files) => {
                add_folder(name, files, &mut out);
            },
            None => {
                assert(views(out@) =~= tree_files(dirs@.take(i + 1)));
            },
        }
        i += 1;
    }
    assert(dirs@.take(i as int) =~= dirs@);
    out
}

/// A transfer: the path, and how it stands.
pub struct TransferFile {
    pub name: String,
    pub state: String,
}

pub struct TransferFileView {
    pub name: Seq<char>,
    pub state: Seq<char>,
}

impl View for TransferFile {
    type V = TransferFileView;

    open spec fn view(&self) -> TransferFileView {
        TransferFileView { name: self.name@, state: self.state@ }
    }
}

pub open spec fn transfer_of(file: Json) -> TransferFileView {
    TransferFileView {
        name: text_or_empty(file, "filename"@),
        state: text_or_empty(file, "state"@),
    }
}

/// The transfers of folders.
pub open spec fn transfers_of(dirs: Seq<Json>) -> Seq<TransferFileView>
    decreases dirs.len(),
{
    if dirs.len() == 0 {
        Seq::empty()
    } else {
        transfers_of(dirs.drop_last()) + elements(field(dirs.last(), "files"@)).map_values(
            |f: Json| transfer_of(f),
        )
    }
}

/// The transfers of users.
pub open spec fn all_transfers(users: Seq<Json>) -> Seq<TransferFileView>
    decreases users.len(),
{
    if users.len() == 0 {
        Seq::empty()
    } else {
        all_transfers(users.drop_last()) + transfers_of(
            elements(field(users.last(), "directories"@)),
        )
    }
}

/// The users in an answer: its elements where it is an array, or the answer itself.
pub open spec fn answer_users(value: Json) -> Seq<Json> {
    match value {
        Json::Array(items) => items@,
        _ => seq![value],
    }
}

fn add_files(files: &Vec<Json>, out: &mut Vec<TransferFile>)
    ensures
        views(final(out)@) == views(old(out)@) + files@.map_values(|f: Json| transfer_of(f)),
{
    let ghost all = files@.map_values(|f: Json| transfer_of(f));
    let ghost before = views(out@);
    let mut i: usize = 0;
    assert(views(out@) =~= before + all.take(0));
    while i < files.len()
        invariant
            i <= files@.len(),
            all == files@.map_values(|f: Json| transfer_of(f)),
            views(out@) == before + all.take(i as int),
        decreases files@.len() - i,
    {
        let ghost so_far = views(out@);
        let file = TransferFile {
            name: text_or_nothing(&files[i], "filename").to_owned(),
            state: text_or_nothing(&files[i], "state").to_owned(),
        };
        let ghost f = file@;
        out.push(file);
        assert(views(out@) =~= so_far.push(f));
        i += 1;
        assert(all.take(i as int) =~= all.take(i as int - 1).push(f));
        assert(views(out@) =~= before + all.take(i as int));
    }
    assert(all.take(i as int) =~= all);
}

fn add_user(user: &Json, out: &mut Vec<TransferFile>)
    ensures
        views(final(out)@) == views(old(out)@) + transfers_of(
            elements(field(*user, "directories"@)),
        ),
{
    let ghost before = views(out@);
    let ghost all = elements(field(*user, "directories"@));
    if let Some(dirs) = user.member_elements("directories") {
        let mut i: usize = 0;
        assert(views(out@) =~= before + transfers_of(dirs@.take(0)));
        while i < dirs.len()
            invariant
                i <= dirs@.len(),
                views(out@) == before + transfers_of(dirs@.take(i as int)),
            decreases dirs@.len() - i,
        {
            proof {
                assert(dirs@.take(i + 1).drop_last() =~= dirs@.take(i as int));
                assert(dirs@.take(i + 1).last() == dirs@[i as int]);
            }
            if let Some(files) = dirs[i].member_elements("files") {
                add_files(files, out);
            }
            i += 1;
            assert(views(out@) =~= before + transfers_of(dirs@.take(i as int)));
        }
        assert(dirs@.take(i as int) =~= dirs@);
    } else {
        assert(views(out@) =~= before + transfers_of(all));
    }
}

/// The transfers in an answer, for one user or for all.
pub fn transfer_files(value: &Json) -> (r: Vec<TransferFile>)
    ensures
        views(r@) == all_transfers(answer_users(*value)),
{
    let mut out: Vec<TransferFile> = Vec::new();
    match value {
        Json::Array(users) => {
            let mut i: usize = 0;
            assert(views(out@) =~= all_transfers(users@.take(0)));
            while i < users.len()
                invariant
                    i <= users@.len(),
                    views(out@) == all_transfers(users@.take(i as int)),
                decreases users@.len() - i,
            {
                proof {
                    assert(users@.take(i + 1).drop_last() =~= users@.take(i as int));
                    assert(users@.take(i + 1).last() == users@[i as int]);
                }
                add_user(&users[i], &mut out);
                i += 1;
            }
            assert(users@.take(i as int) =~= users@);
        },
        _ => {
            add_user(value, &mut out);
            proof {
                let one = seq![*value];
                assert(one.drop_last() =~= Seq::empty());
                reveal_with_fuel(all_transfers, 2);
                assert(views(out@) =~= all_transfers(one));
            }
        },
    }
    out
}

/// What stands behind the last separator, of either kind, of a path.
pub open spec fn path_leaf(path: Seq<char>) -> Seq<char> {
    let k = last_index(path, '/');
    let b = last_index(path, '\\');
    path.skip(if k > b {
        k
    } else {
        b
    } + 1)
}

/// Whether one of the transfers is that of a file of that name, and succeeded.
pub open spec fn succeeded(transfers: Seq<TransferFileView>, basename: Seq<char>) -> bool {
    exists|i: int|
        0 <= i < transfers.len() && path_leaf((#[trigger] transfers[i]).name) == basename
            && occurs(transfers[i].state, "Succeeded"@)
}

fn leaf(path: &str) -> (r: String)
    ensures
        r@ == path_leaf(path@),
{
    let v = chars_of(path);
    let k = crate::text::after_last_index(&v, '/');
    let b = crate::text::after_last_index(&v, '\\');
    let start: usize = if k > b {
        k
    } else {
        b
    };
    let r = string_of(&v, start, v.len());
    assert(r@ =~= path_leaf(path@));
    r
}

/// Whether a download of that name succeeded, going by an answer.
pub fn download_succeeded(value: &Json, basename: &str) -> (r: bool)
    ensures
        r == succeeded(all_transfers(answer_users(*value)), basename@),
{
    let files = transfer_files(value);
    let ghost all = all_transfers(answer_users(*value));
    let mut i: usize = 0;
    while i < files.len()
        invariant
            i <= files@.len(),
            all == views(files@),
            all == all_transfers(answer_users(*value)),
            forall|j: int|
                0 <= j < i ==> !(path_leaf((#[trigger] all[j]).name) == basename@ && occurs(
                    all[j].state,
                    "Succeeded"@,
                )),
        decreases files@.len() - i,
    {
        assert(all[i as int] == files@[i as int]@);
        if same(leaf(files[i].name.as_str()).as_str(), basename) && contains(
            files[i].state.as_str(),
            "Succeeded",
        ) {
            assert(succeeded(all, basename@));
            return true;
        }
        i += 1;
    }
    false
}

/// Every file of every folder is listed, in the order of the tree, by its folder and its name and
/// with its own size: the files of two runs of folders are those of the one and those of the other.
pub proof fn law_every_folder_of_a_tree_is_listed(a: Seq<Json>, b: Seq<Json>, dir: Json)
    ensures
        tree_files(a + b) == tree_files(a) + tree_files(b),
        tree_files(seq![dir]) == folder_files(
            text_or_empty(dir, "name"@),
            elements(field(dir, "files"@)),
        ),
    decreases b.len(),
{
    let one = seq![dir];
    assert(one.drop_last() =~= Seq::<Json>::empty());
    assert(one.last() == dir);
    assert(tree_files(one.drop_last()) =~= Seq::<SharedPathView>::empty());
    assert(tree_files(one) =~= folder_files(
        text_or_empty(dir, "name"@),
        elements(field(dir, "files"@)),
    ));
    if b.len() == 0 {
        assert(a + b =~= a);
        assert(tree_files(a) + tree_files(b) =~= tree_files(a));
    } else {
        law_every_folder_of_a_tree_is_listed(a, b.drop_last(), dir);
        assert((a + b).drop_last() =~= a + b.drop_last());
        assert((a + b).last() == b.last());
        assert(tree_files(a + b) =~= tree_files(a) + tree_files(b));
    }
}

/// A folder lists each of its files that has a name, in their order.
pub proof fn law_every_file_of_a_folder_is_listed(folder: Seq<char>, files: Seq<Json>)
    ensures
        ({
            let named = files.filter(|f: Json| text_of(field(f, "filename"@)) is Some);
            let out = folder_files(folder, files);
            &&& out.len() == named.len()
            &&& forall|i: int|
                0 <= i < out.len() ==> {
                    let name = text_of(field(named[i], "filename"@))->0;
                    &&& (#[trigger] out[i]).path == (if folder.len() == 0 {
                        name
                    } else {
                        folder + "\\"@ + name
                    })
                    &&& out[i].size == (match number_of(field(named[i], "size"@)) {
                        Some(n) => n,
                        None => 0,
                    })
                }
        }),
    decreases files.len(),
{
    reveal(Seq::filter);
    if files.len() > 0 {
        law_every_file_of_a_folder_is_listed(folder, files.drop_last());
    }
}

/// The transfers of every user and every folder count: those of two runs of users are those of the
/// one and those of the other.
pub proof fn law_the_transfers_of_every_user_count(a: Seq<Json>, b: Seq<Json>, user: Json)
    ensures
        all_transfers(a + b) == all_transfers(a) + all_transfers(b),
        all_transfers(seq![user]) == transfers_of(elements(field(user, "directories"@))),
    decreases b.len(),
{
    let one = seq![user];
    assert(one.drop_last() =~= Seq::<Json>::empty());
    assert(one.last() == user);
    assert(all_transfers(one.drop_last()) =~= Seq::<TransferFileView>::empty());
    assert(all_transfers(one) =~= transfers_of(elements(field(user, "directories"@))));
    if b.len() == 0 {
        assert(a + b =~= a);
        assert(all_transfers(a) + all_transfers(b) =~= all_transfers(a));
    } else {
        law_the_transfers_of_every_user_count(a, b.drop_last(), user);
        assert((a + b).drop_last() =~= a + b.drop_last());
        assert((a + b).last() == b.last());
        assert(all_transfers(a + b) =~= all_transfers(a) + all_transfers(b));
    }
}

/// The transfers of a folder are those of its files, each with its own name and state; those of two
/// runs of folders are those of the one and those of the other.
pub proof fn law_the_transfers_of_every_folder_count(
    a: Seq<Json>,
    b: Seq<Json>,
    dir: Json,
    i: int,
)
    ensures
        transfers_of(a + b) == transfers_of(a) + transfers_of(b),
        ({
            let files = elements(field(dir, "files"@));
            let out = transfers_of(seq![dir]);
            &&& out.len() == files.len()
            &&& 0 <= i < out.len() ==> out[i].name == text_or_empty(files[i], "filename"@)
                && out[i].state == text_or_empty(files[i], "state"@)
        }),
    decreases b.len(),
{
    let one = seq![dir];
    assert(one.drop_last() =~= Seq::<Json>::empty());
    assert(one.last() == dir);
    assert(transfers_of(one.drop_last()) =~= Seq::<TransferFileView>::empty());
    assert(transfers_of(one) =~= elements(field(dir, "files"@)).map_values(
        |f: Json| transfer_of(f),
    ));
    if b.len() == 0 {
        assert(a + b =~= a);
        assert(transfers_of(a) + transfers_of(b) =~= transfers_of(a));
    } else {
        law_the_transfers_of_every_folder_count(a, b.drop_last(), dir, i);
        assert((a + b).drop_last() =~= a + b.drop_last());
        assert((a + b).last() == b.last());
        assert(transfers_of(a + b) =~= transfers_of(a) + transfers_of(b));
    }
}

/// The leaf of a path is what follows its last separator, of either kind.
pub proof fn law_the_leaf_follows_the_last_separator(folder: Seq<char>, name: Seq<char>)
    requires
        forall|k: int| 0 <= k < name.len() ==> #[trigger] name[k] != '/' && name[k] != '\\',
    ensures
        path_leaf(folder.push('/') + name) == name,
        path_leaf(folder.push('\\') + name) == name,
        path_leaf(name) == name,
{
    lemma_leaf(folder, '/', '\\', name);
    lemma_leaf(folder, '\\', '/', name);
    crate::text::lemma_last_index(name, '/', -1);
    crate::text::lemma_last_index(name, '\\', -1);
    assert(name.skip(0) =~= name);
}

proof fn lemma_leaf(folder: Seq<char>, c: char, other: char, name: Seq<char>)
    requires
        forall|k: int| 0 <= k < name.len() ==> #[trigger] name[k] != c && name[k] != other,
        c != other,
    ensures
        last_index(folder.push(c) + name, c) == folder.len(),
        last_index(folder.push(c) + name, other) < folder.len(),
        (folder.push(c) + name).skip(folder.len() as int + 1) == name,
{
    let path = folder.push(c) + name;
    let n = folder.len() as int;
    assert forall|k: int| n < k < path.len() implies path[k] != c && path[k] != other by {
        assert(path[k] == name[k - n - 1]);
    }
    assert(path[n] == c);
    crate::text::lemma_last_index(path, c, n);
    crate::text::lemma_last_index_is(path, other);
    assert(path.skip(n + 1) =~= name);
}

/// A share tree is the folders that it names, or the folders themselves; an answer about transfers
/// is that of each user in it, or of the one that it is.
pub proof fn law_answers_come_bare_or_in_a_list(value: Json, items: Vec<Json>)
    ensures
        field(value, "directories"@) is Array ==> tree_dirs(value) == elements(
            field(value, "directories"@),
        ),
        !(field(value, "directories"@) is Array) ==> tree_dirs(value) == elements(value),
        answer_users(Json::Array(items)) == items@,
        !(value is Array) ==> answer_users(value) == seq![value],
{
}

/// A download succeeded if and only if some transfer of that name says so.
pub proof fn law_a_download_succeeded_where_a_transfer_says_so(
    a: Seq<TransferFileView>,
    b: Seq<TransferFileView>,
    t: TransferFileView,
    basename: Seq<char>,
)
    ensures
        succeeded(a + b, basename) <==> succeeded(a, basename) || succeeded(b, basename),
        succeeded(seq![t], basename) <==> path_leaf(t.name) == basename && occurs(
            t.state,
            "Succeeded"@,
        ),
{
    let all = a + b;
    if succeeded(all, basename) {
        let i = choose|i: int|
            0 <= i < all.len() && path_leaf((#[trigger] all[i]).name) == basename && occurs(
                all[i].state,
                "Succeeded"@,
            );
        if i < a.len() {
            assert(a[i] == all[i]);
        } else {
            assert(b[i - a.len()] == all[i]);
        }
    }
    if succeeded(a, basename) {
        let i = choose|i: int|
            0 <= i < a.len() && path_leaf((#[trigger] a[i]).name) == basename && occurs(
                a[i].state,
                "Succeeded"@,
            );
        assert(all[i] == a[i]);
    }
    if succeeded(b, basename) {
        let i = choose|i: int|
            0 <= i < b.len() && path_leaf((#[trigger] b[i]).name) == basename && occurs(
                b[i].state,
                "Succeeded"@,
            );
        assert(all[i + a.len()] == b[i]);
    }
    assert(seq![t][0] == t);
}

} // verus!
