//! Icon loading over the index, and the collection of installed applications.

use vstd::prelude::*;

use crate::index::{with_dirs, Format, IconIndex, IconPath, IndexMap, ThemeDir};
use crate::render::{
    decoded_rgba, raster_rendered, raster_square, render_raster, size_fits, Error, Icon, ReadError,
};

verus! {

/// Desired size of icons at a scale factor of 1.
pub const ICON_SIZE: u32 = 64;

/// What was read for an icon's file.
pub enum Content {
    /// The bytes of a raster file.
    Raster(Vec<u8>),
    /// What the vector rasterizer produced at the requested size: premultiplied
    /// RGBA8 pixels, and their width.
    Vector(Vec<u8>, usize),
}

/// The index entry of `name`, if there is one.
pub open spec fn entry_of(m: IndexMap, name: Seq<char>) -> Option<(Seq<char>, Format)> {
    if m.contains_key(name) {
        Some(m[name])
    } else {
        None
    }
}

/// Whether loading an icon found as `found`, with `content` read for it, gives an
/// icon at `size`.
pub open spec fn load_succeeds(
    found: Option<(Seq<char>, Format)>,
    size: u32,
    content: Result<Content, ReadError>,
) -> bool {
    match found {
        None => false,
        Some((_, format)) => match content {
            Err(_) => false,
            Ok(Content::Raster(bytes)) => format == Format::Raster && decoded_rgba(bytes@) is Some,
            Ok(Content::Vector(data, width)) => format == Format::Vector && width == size
                && data@.len() == size * size * 4,
        },
    }
}

/// Whether an icon loaded from `content` comes out square at the requested size:
/// always for vector content, and for a raster bitmap that is resampled or already
/// has that size.
pub open spec fn load_square(size: u32, content: Result<Content, ReadError>) -> bool {
    match content {
        Ok(Content::Raster(bytes)) => raster_square(bytes@, size),
        _ => true,
    }
}

/// `r` is what loading the icon `name`, found as `found`, at `size` gives, with
/// `content` read for it.
pub open spec fn load_outcome(
    found: Option<(Seq<char>, Format)>,
    name: Seq<char>,
    size: u32,
    content: Result<Content, ReadError>,
    r: Result<Icon, Error>,
) -> bool {
    match found {
        None => r is Err && r->Err_0 is NotFound,
        Some((_, format)) => match content {
            Err(ReadError::Io(e)) => r == Err::<Icon, Error>(Error::Io(e)),
            Err(ReadError::Svg(m)) => r == Err::<Icon, Error>(Error::Svg(m)),
            Ok(Content::Raster(bytes)) => if format != Format::Raster {
                r is Err && r->Err_0 is UnsupportedFormat
            } else if decoded_rgba(bytes@) is None {
                r is Err && r->Err_0 is Image
            } else {
                &&& r is Ok
                &&& raster_rendered(bytes@, size, r->Ok_0.width as nat, r->Ok_0.data@)
                &&& r->Ok_0.name@ == name
                &&& raster_square(bytes@, size) ==> r->Ok_0.width == size && r->Ok_0.data@.len()
                    == size * size * 4
            },
            Ok(Content::Vector(data, width)) => if format != Format::Vector {
                r is Err && r->Err_0 is UnsupportedFormat
            } else if width != size || data@.len() != size * size * 4 {
                r is Err && r->Err_0 is VectorSize
            } else {
                r is Ok && r->Ok_0.width == width && r->Ok_0.data@ == data@ && r->Ok_0.name@ == name
            },
        },
    }
}

/// A name that no theme directory holds loads as `NotFound`, whatever was read for
/// it, and so adds no application.
pub proof fn missing_name_is_left_out(
    index: IndexMap,
    name: Seq<char>,
    size: u32,
    content: Result<Content, ReadError>,
    r: Result<Icon, Error>,
)
    requires
        !index.contains_key(name),
        load_outcome(entry_of(index, name), name, size, content, r),
    ensures
        r is Err && r->Err_0 is NotFound,
        !load_succeeds(entry_of(index, name), size, content),
{
}

/// Loader for application icons over a priority index of theme directories.
pub struct IconLoader {
    icons: IconIndex,
}

impl View for IconLoader {
    type V = IndexMap;

    closed spec fn view(&self) -> IndexMap {
        self.icons@
    }
}

impl IconLoader {
    pub closed spec fn wf(&self) -> bool {
        self.icons.wf()
    }

    /// Indexes the listed theme directories, lowest priority first.
    pub fn new(dirs: &Vec<ThemeDir>) -> (r: IconLoader)
        ensures
            r.wf(),
            r@ == with_dirs(IndexMap::empty(), dirs@.map_values(|d: ThemeDir| d@)),
    {
        IconLoader { icons: IconIndex::build(dirs) }
    }

    /// Where the file of icon `icon` lies, and its format.
    pub fn lookup(&self, icon: &str) -> (r: Option<IconPath>)
        requires
            self.wf(),
        ensures
            match r {
                Some(p) => entry_of(self@, icon@) == Some((p.path@, p.format)),
                None => entry_of(self@, icon@) is None,
            },
    {
        self.icons.lookup(icon)
    }

    /// Renders icon `icon` at `size` from what was read for its file.
    pub fn load(&self, icon: &str, size: u32, content: Result<Content, ReadError>) -> (r: Result<Icon, Error>)
        requires
            self.wf(),
            size_fits(size),
        ensures
            load_outcome(entry_of(self@, icon@), icon@, size, content, r),
            r is Ok <==> load_succeeds(entry_of(self@, icon@), size, content),
            (r is Err && r->Err_0 is NotFound) <==> entry_of(self@, icon@) is None,
            r is Ok && load_square(size, content) ==> r->Ok_0.width == size && r->Ok_0.data@.len()
                == size * size * 4,
    {
        let name = icon.to_owned();
        let found = match self.icons.lookup(icon) {
            None => return Err(Error::NotFound),
            Some(found) => found,
        };
        match content {
            Err(ReadError::Io(e)) => Err(Error::Io(e)),
            Err(ReadError::Svg(m)) => Err(Error::Svg(m)),
            Ok(Content::Raster(bytes)) => if found.format == Format::Raster {
                render_raster(bytes.as_slice(), size, name)
            } else {
                Err(Error::UnsupportedFormat)
            },
            Ok(Content::Vector(data, width)) => if found.format == Format::Vector {
                let side = size as usize;
                assert(side * side <= side * side * 4) by (nonlinear_arith);
                if width == side && data.len() == side * side * 4 {
                    Ok(Icon { data, width, name })
                } else {
                    Err(Error::VectorSize)
                }
            } else {
                Err(Error::UnsupportedFormat)
            },
        }
    }
}

/// Desktop entry information.
pub struct DesktopEntry {
    pub icon: Icon,
    pub name: String,
    pub command: String,
}

/// Whether icons at `scale_factor` times the base size can be rendered.
pub open spec fn factor_fits(scale_factor: u32) -> bool {
    0 < scale_factor && ICON_SIZE * scale_factor <= u32::MAX && size_fits(
        (ICON_SIZE * scale_factor) as u32,
    )
}

/// Whether icons can be rendered at `scale_factor`.
pub fn factor_fits_value(scale_factor: u32) -> (r: bool)
    ensures
        r == factor_fits(scale_factor),
{
    if scale_factor == 0 || scale_factor > u32::MAX / ICON_SIZE {
        return false;
    }
    let size = (ICON_SIZE * scale_factor) as u128;
    assert(size * size * 4 <= u32::MAX * u32::MAX * 4) by (nonlinear_arith)
        requires
            size <= u32::MAX,
    ;
    size * size * 4 <= usize::MAX as u128
}

/// The installed applications, each with its rendered icon.
pub struct DesktopEntries {
    entries: Vec<DesktopEntry>,
    loader: IconLoader,
    scale_factor: u32,
}

impl DesktopEntries {
    pub closed spec fn wf(&self) -> bool {
        self.loader.wf() && factor_fits(self.scale_factor)
    }

    /// The applications, in the order they were added.
    pub closed spec fn spec_entries(&self) -> Seq<DesktopEntry> {
        self.entries@
    }

    pub closed spec fn spec_scale_factor(&self) -> u32 {
        self.scale_factor
    }

    /// The icon index that icons are loaded from.
    pub closed spec fn spec_index(&self) -> IndexMap {
        self.loader@
    }

    /// Icon size at the current scale factor.
    pub open spec fn spec_icon_size(&self) -> u32 {
        (ICON_SIZE * self.spec_scale_factor()) as u32
    }

    /// No applications yet, with icons loaded through `loader`.
    pub fn new(scale_factor: u32, loader: IconLoader) -> (r: DesktopEntries)
        requires
            factor_fits(scale_factor),
            loader.wf(),
        ensures
            r.wf(),
            r.spec_entries().len() == 0,
            r.spec_scale_factor() == scale_factor,
            r.spec_index() == loader@,
    {
        DesktopEntries { entries: Vec::new(), loader, scale_factor }
    }

    /// The loader that icons are loaded through.
    pub fn loader(&self) -> (r: &IconLoader)
        requires
            self.wf(),
        ensures
            r.wf(),
            r@ == self.spec_index(),
    {
        &self.loader
    }

    /// Update the DPI scale factor. Returns whether it changed, and so whether the
    /// icons are to be rendered again; where it did not, nothing changes.
    pub fn set_scale_factor(&mut self, scale_factor: u32) -> (changed: bool)
        requires
            old(self).wf(),
            factor_fits(scale_factor),
        ensures
            final(self).wf(),
            changed == (old(self).spec_scale_factor() != scale_factor),
            final(self).spec_scale_factor() == scale_factor,
            final(self).spec_entries() == old(self).spec_entries(),
            final(self).spec_index() == old(self).spec_index(),
    {
        // Avoid re-rasterization of icons when the factor did not change.
        if self.scale_factor == scale_factor {
            return false;
        }
        self.scale_factor = scale_factor;
        true
    }

    /// Desktop icon size.
    pub fn icon_size(&self) -> (r: u32)
        requires
            self.wf(),
        ensures
            r == self.spec_icon_size(),
            r == ICON_SIZE * self.spec_scale_factor(),
    {
        ICON_SIZE * self.scale_factor
    }

    /// Renders every icon again at the current size, from what was read for the
    /// icon of each entry, in order. An entry whose icon fails to load keeps the
    /// icon it had.
    pub fn rerender(&mut self, contents: Vec<Result<Content, ReadError>>)
        requires
            old(self).wf(),
            contents@.len() == old(self).spec_entries().len(),
        ensures
            final(self).wf(),
            final(self).spec_scale_factor() == old(self).spec_scale_factor(),
            final(self).spec_index() == old(self).spec_index(),
            final(self).spec_entries().len() == old(self).spec_entries().len(),
            forall|i: int|
                0 <= i < contents@.len() ==> {
                    let before = #[trigger] old(self).spec_entries()[i];
                    let after = final(self).spec_entries()[i];
                    let found = entry_of(old(self).spec_index(), before.icon.name@);
                    &&& after.name == before.name
                    &&& after.command == before.command
                    &&& load_succeeds(found, old(self).spec_icon_size(), contents@[i]) ==> load_outcome(
                        found,
                        before.icon.name@,
                        old(self).spec_icon_size(),
                        contents@[i],
                        Ok(after.icon),
                    )
                    &&& !load_succeeds(found, old(self).spec_icon_size(), contents@[i]) ==> after.icon
                        == before.icon
                    &&& load_succeeds(found, old(self).spec_icon_size(), contents@[i]) && load_square(
                        old(self).spec_icon_size(),
                        contents@[i],
                    ) ==> after.icon.width == old(self).spec_icon_size() && after.icon.data@.len()
                        == old(self).spec_icon_size() * old(self).spec_icon_size() * 4
                },
    {
        let size = self.icon_size();
        let ghost all = contents@;
        let mut contents = contents;
        let mut i: usize = self.entries.len();
        while i > 0
            invariant
                self.wf(),
                size == old(self).spec_icon_size(),
                size_fits(size),
                self.scale_factor == old(self).scale_factor,
                self.loader == old(self).loader,
                self.entries@.len() == old(self).entries@.len(),
                all.len() == self.entries@.len(),
                i <= all.len(),
                contents@ == all.subrange(0, i as int),
                forall|j: int| 0 <= j < i ==> self.entries@[j] == old(self).entries@[j],
                forall|j: int|
                    i <= j < all.len() ==> {
                        let before = #[trigger] old(self).entries@[j];
                        let after = self.entries@[j];
                        let found = entry_of(old(self).loader@, before.icon.name@);
                        &&& after.name == before.name
                        &&& after.command == before.command
                        &&& load_succeeds(found, size, all[j]) ==> load_outcome(
                            found,
                            before.icon.name@,
                            size,
                            all[j],
                            Ok(after.icon),
                        )
                        &&& !load_succeeds(found, size, all[j]) ==> after.icon == before.icon
                    },
            decreases i,
        {
            i = i - 1;
            if let Some(content) = contents.pop() {
                let loaded = self.loader.load(self.entries[i].icon.name.as_str(), size, content);
                if let Ok(icon) = loaded {
                    let entry = DesktopEntry {
                        icon,
                        name: self.entries[i].name.clone(),
                        command: self.entries[i].command.clone(),
                    };
                    self.entries.set(i, entry);
                }
            }
        }
    }

    /// Adds an application whose icon was loaded as `icon`. One whose icon failed
    /// to load is left out. Returns whether it was added.
    pub fn push(&mut self, name: String, command: String, icon: Result<Icon, Error>) -> (added: bool)
        requires
            old(self).wf(),
        ensures
            final(self).wf(),
            final(self).spec_scale_factor() == old(self).spec_scale_factor(),
            final(self).spec_index() == old(self).spec_index(),
            added == icon is Ok,
            added ==> final(self).spec_entries() == old(self).spec_entries().push(
                (DesktopEntry { icon: icon->Ok_0, name, command }),
            ),
            !added ==> final(self).spec_entries() == old(self).spec_entries(),
    {
        match icon {
            Ok(icon) => {
                self.entries.push(DesktopEntry { icon, name, command });
                true
            },
            Err(_) => false,
        }
    }

    /// Loads the icon `icon_name` at the current size from what was read for it,
    /// and adds the application where that succeeds. Returns whether it was added.
    pub fn add_application(
        &mut self,
        name: String,
        command: String,
        icon_name: &str,
        content: Result<Content, ReadError>,
    ) -> (added: bool)
        requires
            old(self).wf(),
        ensures
            final(self).wf(),
            final(self).spec_scale_factor() == old(self).spec_scale_factor(),
            final(self).spec_index() == old(self).spec_index(),
            added == load_succeeds(entry_of(old(self).spec_index(), icon_name@), old(self).spec_icon_size(), content),
            added ==> final(self).spec_entries().len() == old(self).spec_entries().len() + 1
                && final(self).spec_entries().drop_last() == old(self).spec_entries()
                && final(self).spec_entries().last().name == name
                && final(self).spec_entries().last().command == command
                && load_outcome(
                    entry_of(old(self).spec_index(), icon_name@),
                    icon_name@,
                    old(self).spec_icon_size(),
                    content,
                    Ok(final(self).spec_entries().last().icon),
                ) && (load_square(old(self).spec_icon_size(), content) ==> final(self).spec_entries().last().icon.width == old(self).spec_icon_size() && final(self).spec_entries().last().icon.data@.len() == old(self).spec_icon_size()
                    * old(self).spec_icon_size() * 4),
            !added ==> final(self).spec_entries() == old(self).spec_entries(),
    {
        let size = self.icon_size();
        let icon = self.loader.load(icon_name, size, content);
        let added = self.push(name, command, icon);
        proof {
            if added {
                assert(self.entries@.drop_last() =~= old(self).entries@);
            }
        }
        added
    }

    /// All applications, in the order they were added.
    pub fn iter(&self) -> (r: &[DesktopEntry])
        ensures
            r@ == self.spec_entries(),
    {
        self.entries.as_slice()
    }

    /// Get the desktop entry at the specified index.
    pub fn get(&self, index: usize) -> (r: Option<&DesktopEntry>)
        ensures
            match r {
                Some(e) => index < self.spec_entries().len() && *e == self.spec_entries()[index as int],
                None => index >= self.spec_entries().len(),
            },
    {
        if index < self.entries.len() {
            Some(&self.entries[index])
        } else {
            None
        }
    }

    /// Number of installed applications.
    pub fn len(&self) -> (r: usize)
        ensures
            r == self.spec_entries().len(),
    {
        self.entries.len()
    }
}

} // verus!
