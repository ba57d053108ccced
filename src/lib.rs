//! A streaming parser for a line-oriented, length-prefixed version-control
//! wire protocol; a validator for sub-repository expansions inside a large
//! repository; and the chunker that cuts uploaded content for storage.
pub mod parsed;
pub mod kernel;
pub mod assoc;
pub mod param_map;
pub mod list;
pub mod params;
pub mod external;
pub mod nodehash;
pub mod values;
pub mod lookup;
pub mod strmap;
pub mod bundlecaps;
pub mod request;
pub mod paths;
pub mod expansion;
pub mod tree_diff;
pub mod walk;
pub mod laws;
pub mod chunk;
