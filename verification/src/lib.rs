//! A typesafe bitmask-flag library.
//!
//! A flags type is described at run time by a [`FlagTable`]: an ordered list
//! of named (or anonymous) bit patterns over a fixed-width integer storage
//! type.  A [`Flags`] value pairs a reference to its table with a raw storage
//! value, and supports the usual set algebra (union, intersection,
//! difference, symmetric difference, complement), membership queries,
//! bit-exact conversions, iteration over its named components, and a
//! canonical `NAME | NAME | 0xHEX` text form with a parser that inverts the
//! formatter.

pub mod atomic;
pub mod bits;
pub mod flags;
pub mod fmt;
pub mod parser;
pub mod iter;
pub mod iterator;
pub mod laws;
pub mod ops;
pub mod text;

pub use bits::Bits;
pub use bits::Sealed;
pub use flags::Flag;
pub use flags::FlagTable;
pub use flags::Flags;
pub use parser::FromHex;
pub use parser::ParseError;
pub use parser::from_str;
pub use fmt::to_writer;
pub use atomic::Atomic;
pub use atomic::AtomicBits;
pub use atomic::HasAtomic;
pub use iter::Iter;
pub use iter::IterNames;
pub use iterator::BitFlagsIter;
