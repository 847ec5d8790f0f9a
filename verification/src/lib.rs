pub mod calendar;
pub mod icons;
pub mod media;
pub mod notch;
pub mod shelf;
pub mod stats;
pub mod text;
pub mod tracker;
pub mod windows;
pub mod widget;
