//! An owned, fixed-length heap buffer of plain-old-data elements, with
//! read and write views as typed slices and as byte images.

pub mod pod;
pub mod region;
pub mod heap;

pub use pod::{Pod, ZeroBits};
pub use region::{DmaRegion, DmaRegionMut, PodRegion, PodRegionMut};
pub use heap::{AllocError, HeapMem};
