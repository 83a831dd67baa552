//! Utility extensions for primitive types, together with a small verified
//! pseudo-random core: a xorshift* generator, an unbiased range sampler
//! built on rejection sampling, and an in-place Fisher-Yates shuffle.

pub mod bytes;
pub mod convert;
pub mod count_digits;
pub mod dates;
pub mod dedup;
pub mod hash;
pub mod iterations;
pub mod maps;
pub mod options;
pub mod random;
pub mod separator;
pub mod slice;
pub mod strings;
pub mod unique;
pub mod vecs;

pub use random::InvalidRange;
pub use random::Shuffle;
pub use random::XorShiftRng;
pub use random::random_in_range;
pub use random::get_seed;
pub use bytes::BytesExtension;
pub use convert::ParseNumberError;
pub use convert::string_to_digits;
pub use convert::string_to_vec_of_integers;
pub use convert::to_vec_slice;
pub use convert::to_vec_string;
pub use count_digits::IntegerDigits;
pub use count_digits::decimal_digit_count;
pub use count_digits::digit_count;
pub use dates::get_naive_date;
pub use dates::get_naive_date_v2;
pub use hash::blake3_hash_bytes;
pub use dedup::Partition;
pub use dedup::Unique;
pub use iterations::SkipBack;
pub use maps::BTreeSetExtension;
pub use maps::HashSetExtension;
pub use options::OptionExtension;
pub use random::rand;
pub use separator::FormatStyle;
pub use separator::add_sep;
pub use separator::thousands_separator;
pub use slice::split_slice_into_subsets;
pub use strings::GetNChars;
pub use strings::StrExtension;
pub use strings::StringExtension;
pub use unique::IteratorExt;
pub use unique::SkipLastIterator;
pub use unique::UniqueElements;
pub use unique::UniqueIterator;
