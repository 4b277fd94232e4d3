pub mod clock;
pub mod editor;
pub mod session;
pub mod storage;
pub mod text;
pub mod theme;
pub mod win32;
