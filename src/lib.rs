//! Resolve application icon names to rendered, alpha-premultiplied RGBA buffers.

pub mod catalog;
pub mod desktop;
pub mod index;
pub mod render;

pub use catalog::{Content, DesktopEntries, DesktopEntry, IconLoader};
pub use desktop::{parse_descriptor, DescriptorFields};
pub use index::{Format, IconIndex, IconPath, ThemeDir};
pub use render::{Error, Icon, ReadError};
