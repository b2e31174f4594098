//! Staff notation: notes, staves, ledger lines and the layout of a note
//! sequence over several systems.

pub mod painter;
pub mod notes;
pub mod staff;
pub mod renderer;

pub use painter::{Color, Painter, Pos2, Rect, Shape, Stroke, COORD_LIMIT, PX};
pub use notes::{Judgement, Note, NoteType};
pub use staff::{Clef, Staff};
pub use renderer::{NotationRenderer, StaffSystem};
