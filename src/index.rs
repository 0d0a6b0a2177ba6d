//! Priority index from icon names to the files of the theme directories.

use vstd::prelude::*;

verus! {

/// Format of the icon files that a theme directory holds.
#[derive(Clone, Copy, Debug, PartialEq, Eq, Structural)]
pub enum Format {
    /// PNG bitmaps.
    Raster,
    /// SVG scenes.
    Vector,
}

/// File extension of a format, without the dot.
pub open spec fn extension(format: Format) -> Seq<char> {
    match format {
        Format::Raster => seq!['p', 'n', 'g'],
        Format::Vector => seq!['s', 'v', 'g'],
    }
}

/// The icon name that a file stands for in a directory of `format`: the file
/// name without its extension, where that extension is the format's.
pub open spec fn icon_stem(file: Seq<char>, format: Format) -> Option<Seq<char>> {
    if file.len() >= 4 && file.subrange(file.len() - 4, file.len() as int) == seq!['.']
        + extension(format) {
        Some(file.subrange(0, file.len() - 4))
    } else {
        None
    }
}

/// Path of a file inside a directory.
pub open spec fn joined(dir: Seq<char>, file: Seq<char>) -> Seq<char> {
    if dir.len() == 0 {
        file
    } else if dir.last() == '/' {
        dir + file
    } else {
        dir + seq!['/'] + file
    }
}

/// Name → (path, format), as the index holds it.
pub type IndexMap = Map<Seq<char>, (Seq<char>, Format)>;

/// `m` with the icons of the listed files of one directory added in order, a later
/// file replacing an earlier entry of the same name.
pub open spec fn with_files(m: IndexMap, dir: Seq<char>, format: Format, files: Seq<Seq<char>>) -> IndexMap
    decreases files.len(),
{
    if files.len() == 0 {
        m
    } else {
        let prev = with_files(m, dir, format, files.drop_last());
        match icon_stem(files.last(), format) {
            Some(name) => prev.insert(name, (joined(dir, files.last()), format)),
            None => prev,
        }
    }
}

/// `m` with the directories added in order, lowest priority first.
pub open spec fn with_dirs(m: IndexMap, dirs: Seq<(Seq<char>, Format, Seq<Seq<char>>)>) -> IndexMap
    decreases dirs.len(),
{
    if dirs.len() == 0 {
        m
    } else {
        let d = dirs.last();
        with_files(with_dirs(m, dirs.drop_last()), d.0, d.1, d.2)
    }
}

/// A theme directory as it was listed: its path, the format it holds, and the
/// names of its regular files.
pub struct ThemeDir {
    pub dir: String,
    pub format: Format,
    pub files: Vec<String>,
}

impl View for ThemeDir {
    type V = (Seq<char>, Format, Seq<Seq<char>>);

    open spec fn view(&self) -> Self::V {
        (self.dir@, self.format, self.files@.map_values(|f: String| f@))
    }
}

fn extension_chars(format: Format) -> (r: (char, char, char))
    ensures
        seq![r.0, r.1, r.2] == extension(format),
{
    match format {
        Format::Raster => ('p', 'n', 'g'),
        Format::Vector => ('s', 'v', 'g'),
    }
}

/// The icon name that a file of a directory of `format` stands for.
pub fn file_icon_name(file: &str, format: Format) -> (r: Option<String>)
    ensures
        match r {
            Some(s) => icon_stem(file@, format) == Some(s@),
            None => icon_stem(file@, format) is None,
        },
{
    let n = file.unicode_len();
    if n < 4 {
        return None;
    }
    let (x, y, z) = extension_chars(format);
    let ghost ext = seq!['.'] + extension(format);
    let ghost tail = file@.subrange(n - 4, n as int);
    if file.get_char(n - 4) == '.' && file.get_char(n - 3) == x && file.get_char(n - 2) == y
        && file.get_char(n - 1) == z {
        assert(tail =~= ext);
        Some(file.substring_char(0, n - 4).to_owned())
    } else {
        assert(tail[0] == file@[n - 4] && tail[1] == file@[n - 3] && tail[2] == file@[n - 2]
            && tail[3] == file@[n - 1]);
        assert(ext[0] == '.' && ext[1] == x && ext[2] == y && ext[3] == z);
        None
    }
}

/// Path of a file inside a directory, with one separator between them.
pub fn join_path(dir: &str, file: &str) -> (r: String)
    ensures
        r@ == joined(dir@, file@),
{
    let n = dir.unicode_len();
    if n == 0 {
        return file.to_owned();
    }
    let mut path = dir.to_owned();
    if dir.get_char(n - 1) != '/' {
        proof {
            reveal_strlit("/");
        }
        path.append("/");
    }
    path.append(file);
    path
}

struct IndexEntry {
    name: String,
    path: String,
    format: Format,
}

/// Where an icon's file lies, and its format.
pub struct IconPath {
    pub path: String,
    pub format: Format,
}

/// Mapping from icon names to the file that the highest-priority directory holds.
pub struct IconIndex {
    entries: Vec<IndexEntry>,
    map: Ghost<IndexMap>,
}

impl View for IconIndex {
    type V = IndexMap;

    closed spec fn view(&self) -> IndexMap {
        self.map@
    }
}

impl IconIndex {
    /// The entries hold each name once, and exactly the pairs of the map.
    pub closed spec fn wf(&self) -> bool {
        &&& forall|i: int, j: int|
            0 <= i < j < self.entries@.len() ==> self.entries@[i].name@ != self.entries@[j].name@
        &&& forall|i: int|
            0 <= i < self.entries@.len() ==> self.map@.contains_key(
                #[trigger] self.entries@[i].name@,
            ) && self.map@[self.entries@[i].name@] == (
                self.entries@[i].path@,
                self.entries@[i].format,
            )
        &&& forall|k: Seq<char>|
            #[trigger] self.map@.contains_key(k) ==> exists|i: int|
                0 <= i < self.entries@.len() && self.entries@[i].name@ == k
    }

    /// An index with no icon.
    pub fn new() -> (r: IconIndex)
        ensures
            r.wf(),
            r@ == IndexMap::empty(),
    {
        IconIndex { entries: Vec::new(), map: Ghost(Map::empty()) }
    }

    /// Records `name` at `path`, replacing what the name had before.
    pub fn insert(&mut self, name: String, path: String, format: Format)
        requires
            old(self).wf(),
        ensures
            final(self).wf(),
            final(self)@ == old(self)@.insert(name@, (path@, format)),
    {
        let n = self.entries.len();
        let mut i: usize = 0;
        while i < n
            invariant
                n == self.entries@.len(),
                *self == *old(self),
                self.wf(),
                i <= n,
                forall|j: int| 0 <= j < i ==> self.entries@[j].name@ != name@,
            decreases n - i,
        {
            if self.entries[i].name == name {
                let ghost old_entries = self.entries@;
                let ghost key = name@;
                self.entries.set(i, IndexEntry { name, path, format });
                self.map = Ghost(self.map@.insert(key, (path@, format)));
                assert forall|k: Seq<char>| #[trigger] self.map@.contains_key(k) implies exists|
                    j: int,
                | 0 <= j < self.entries@.len() && self.entries@[j].name@ == k by {
                    if k != key {
                        let j = choose|j: int|
                            0 <= j < old_entries.len() && old_entries[j].name@ == k;
                        assert(self.entries@[j].name@ == k);
                    } else {
                        assert(self.entries@[i as int].name@ == k);
                    }
                }
                return;
            }
            i = i + 1;
        }
        let ghost key = name@;
        self.entries.push(IndexEntry { name, path, format });
        self.map = Ghost(self.map@.insert(key, (path@, format)));
        assert forall|k: Seq<char>| #[trigger] self.map@.contains_key(k) implies exists|j: int|
            0 <= j < self.entries@.len() && self.entries@[j].name@ == k by {
            if k != key {
                let j = choose|j: int|
                    0 <= j < old(self).entries@.len() && old(self).entries@[j].name@ == k;
                assert(self.entries@[j].name@ == k);
            } else {
                assert(self.entries@[n as int].name@ == k);
            }
        }
    }

    /// The file recorded for `name`, if any.
    pub fn lookup(&self, name: &str) -> (r: Option<IconPath>)
        requires
            self.wf(),
        ensures
            match r {
                Some(p) => self@.contains_key(name@) && self@[name@] == (p.path@, p.format),
                None => !self@.contains_key(name@),
            },
    {
        let key = name.to_owned();
        let n = self.entries.len();
        let mut i: usize = 0;
        while i < n
            invariant
                n == self.entries@.len(),
                i <= n,
                key@ == name@,
                self.wf(),
                forall|j: int| 0 <= j < i ==> self.entries@[j].name@ != name@,
            decreases n - i,
        {
            if self.entries[i].name == key {
                return Some(IconPath { path: self.entries[i].path.clone(), format: self.entries[i].format });
            }
            i = i + 1;
        }
        None
    }

    /// Adds the icons of one listed directory, each replacing an entry of the same
    /// name.
    pub fn add_directory(&mut self, dir: &ThemeDir)
        requires
            old(self).wf(),
        ensures
            final(self).wf(),
            final(self)@ == with_files(old(self)@, dir@.0, dir@.1, dir@.2),
    {
        let n = dir.files.len();
        let mut i: usize = 0;
        while i < n
            invariant
                n == dir.files@.len(),
                i <= n,
                self.wf(),
                self@ == with_files(old(self)@, dir@.0, dir@.1, dir@.2.subrange(0, i as int)),
            decreases n - i,
        {
            let file = &dir.files[i];
            let ghost files = dir@.2.subrange(0, i + 1);
            assert(files.drop_last() =~= dir@.2.subrange(0, i as int));
            assert(files.last() == file@);
            match file_icon_name(file.as_str(), dir.format) {
                Some(name) => {
                    let path = join_path(dir.dir.as_str(), file.as_str());
                    self.insert(name, path, dir.format);
                },
                None => {},
            }
            i = i + 1;
        }
        assert(dir@.2.subrange(0, n as int) =~= dir@.2);
    }

    /// Builds the index from directories listed lowest priority first.
    pub fn build(dirs: &Vec<ThemeDir>) -> (r: IconIndex)
        ensures
            r.wf(),
            r@ == with_dirs(IndexMap::empty(), dirs@.map_values(|d: ThemeDir| d@)),
    {
        let ghost all = dirs@.map_values(|d: ThemeDir| d@);
        let mut index = IconIndex::new();
        let n = dirs.len();
        let mut i: usize = 0;
        while i < n
            invariant
                n == dirs@.len(),
                all == dirs@.map_values(|d: ThemeDir| d@),
                i <= n,
                index.wf(),
                index@ == with_dirs(IndexMap::empty(), all.subrange(0, i as int)),
            decreases n - i,
        {
            let ghost done = all.subrange(0, i + 1);
            assert(done.drop_last() =~= all.subrange(0, i as int));
            assert(done.last() == dirs@[i as int]@);
            index.add_directory(&dirs[i]);
            i = i + 1;
        }
        assert(all.subrange(0, n as int) =~= all);
        index
    }
}

proof fn lemma_stem_determines_file(f: Seq<char>, g: Seq<char>, format: Format)
    requires
        icon_stem(f, format) is Some,
        icon_stem(f, format) == icon_stem(g, format),
    ensures
        f == g,
{
    assert(f =~= f.subrange(0, f.len() - 4) + f.subrange(f.len() - 4, f.len() as int));
    assert(g =~= g.subrange(0, g.len() - 4) + g.subrange(g.len() - 4, g.len() as int));
}

proof fn lemma_last_file_wins(m: IndexMap, dir: Seq<char>, format: Format, files: Seq<Seq<char>>, j: int)
    requires
        0 <= j < files.len(),
        icon_stem(files[j], format) is Some,
        forall|k: int| j < k < files.len() ==> icon_stem(#[trigger] files[k], format) != icon_stem(files[j], format),
    ensures
        with_files(m, dir, format, files).contains_key(icon_stem(files[j], format)->0),
        with_files(m, dir, format, files)[icon_stem(files[j], format)->0] == (joined(dir, files[j]), format),
    decreases files.len(),
{
    if j < files.len() - 1 {
        let rest = files.drop_last();
        assert forall|k: int| j < k < rest.len() implies icon_stem(#[trigger] rest[k], format) != icon_stem(rest[j], format) by {
            assert(rest[k] == files[k]);
        }
        assert(icon_stem(files.last(), format) != icon_stem(files[j], format));
        lemma_last_file_wins(m, dir, format, rest, j);
    }
}

/// Priority: where the directory declared second holds the file for an icon name,
/// the index built from both directories maps that name to the second one's file,
/// whatever the first holds. A directory's file names are distinct.
pub proof fn later_directory_wins(
    first: (Seq<char>, Format, Seq<Seq<char>>),
    second: (Seq<char>, Format, Seq<Seq<char>>),
    j: int,
)
    requires
        0 <= j < second.2.len(),
        icon_stem(second.2[j], second.1) is Some,
        second.2.no_duplicates(),
    ensures
        with_dirs(IndexMap::empty(), seq![first, second]).contains_key(icon_stem(second.2[j], second.1)->0),
        with_dirs(IndexMap::empty(), seq![first, second])[icon_stem(second.2[j], second.1)->0] == (
            joined(second.0, second.2[j]),
            second.1,
        ),
{
    let dirs = seq![first, second];
    assert(dirs.drop_last() =~= seq![first]);
    assert(dirs.drop_last().drop_last() =~= Seq::<(Seq<char>, Format, Seq<Seq<char>>)>::empty());
    let before = with_dirs(IndexMap::empty(), seq![first]);
    assert forall|k: int| j < k < second.2.len() implies icon_stem(#[trigger] second.2[k], second.1)
        != icon_stem(second.2[j], second.1) by {
        if icon_stem(second.2[k], second.1) == icon_stem(second.2[j], second.1) {
            lemma_stem_determines_file(second.2[j], second.2[k], second.1);
        }
    }
    lemma_last_file_wins(before, second.0, second.1, second.2, j);
}

} // verus!
