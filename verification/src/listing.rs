//! Shaping of raw listing pages into browser rows and index-pool records:
//! common prefixes become synthetic directory rows, object records become
//! file rows with prefix-relative display names.

use vstd::prelude::*;
use crate::data::{BucketInfo, ObjectEntry, ObjectMetadata, RawBucket, RawObject, Timestamp};
use crate::strings::{
    ends_with_slash, str_ends_with_slash, str_eq, strip_prefix_of, strip_prefix_or_self,
    trim_slashes, trim_trailing_slashes,
};

verus! {

/// What formatting a point in time as `year-month-day hour:minute` yields;
/// the empty sequence when the time is out of the printable range.
pub uninterp spec fn timestamp_text(secs: int, nanos: int) -> Seq<char>;

/// Relies on chrono's DateTime::from_timestamp and its `format`: the printed
/// text is a function of the seconds and nanoseconds alone (UTC, fixed
/// format, no locale).
#[verifier::external_body]
pub fn format_timestamp(t: Timestamp) -> (r: String)
    ensures
        r@ == timestamp_text(t.secs as int, t.nanos as int),
{
    chrono::DateTime::from_timestamp(t.secs, t.nanos)
        .map(|d| d.format("%Y-%m-%d %H:%M").to_string())
        .unwrap_or_default()
}

/// `s` is the display text of the optional time `t`.
pub open spec fn opt_time_text(t: Option<Timestamp>, s: Option<String>) -> bool {
    match t {
        Some(ts) => s is Some && s.unwrap()@ == timestamp_text(ts.secs as int, ts.nanos as int),
        None => s is None,
    }
}

pub fn format_opt_timestamp(t: &Option<Timestamp>) -> (r: Option<String>)
    ensures
        opt_time_text(*t, r),
{
    match t {
        Some(ts) => Some(format_timestamp(*ts)),
        None => None,
    }
}

/// A listed size, with a missing size read as zero.
pub open spec fn size_or_zero(s: Option<i64>) -> i64 {
    match s {
        Some(n) => n,
        None => 0,
    }
}

/// Bucket records that carry a name are kept.
pub open spec fn bucket_kept() -> spec_fn(RawBucket) -> bool {
    |b: RawBucket| b.name is Some
}

/// `o` is the browser row shaped from the raw bucket record `b`.
pub open spec fn shaped_bucket(b: RawBucket, o: BucketInfo) -> bool {
    &&& b.name is Some
    &&& o.name == b.name.unwrap()
    &&& opt_time_text(b.creation_date, o.creation_date)
}

/// Shape a raw bucket-list page: keep the named buckets, in order.
pub fn make_bucket_entries(raw: Vec<RawBucket>) -> (r: Vec<BucketInfo>)
    ensures
        r@.len() == raw@.filter(bucket_kept()).len(),
        forall|i: int|
            0 <= i < r@.len() ==> shaped_bucket(#[trigger] raw@.filter(bucket_kept())[i], r@[i]),
{
    let mut out: Vec<BucketInfo> = Vec::new();
    let mut i: usize = 0;
    proof {
        reveal(Seq::filter);
        assert(raw@.take(0int).filter(bucket_kept()) =~= Seq::<RawBucket>::empty());
    }
    while i < raw.len()
        invariant
            i <= raw@.len(),
            out@.len() == raw@.take(i as int).filter(bucket_kept()).len(),
            forall|k: int|
                0 <= k < out@.len() ==> shaped_bucket(
                    #[trigger] raw@.take(i as int).filter(bucket_kept())[k],
                    out@[k],
                ),
        decreases raw@.len() - i,
    {
        let ghost pre = raw@.take(i as int).filter(bucket_kept());
        proof {
            reveal(Seq::filter);
            assert(raw@.take(i + 1).drop_last() =~= raw@.take(i as int));
            assert(raw@.take(i + 1).last() == raw@[i as int]);
        }
        match &raw[i].name {
            Some(name) => {
                let created = format_opt_timestamp(&raw[i].creation_date);
                out.push(BucketInfo { name: name.clone(), creation_date: created });
                proof {
                    assert(raw@.take(i + 1).filter(bucket_kept()) =~= pre.push(raw@[i as int]));
                }
            },
            None => {
                proof {
                    assert(raw@.take(i + 1).filter(bucket_kept()) =~= pre);
                }
            },
        }
        i = i + 1;
    }
    proof {
        assert(raw@.take(raw@.len() as int) =~= raw@);
    }
    out
}

/// Common prefixes whose prefix-relative name is non-empty are kept.
pub open spec fn dir_kept(prefix: Seq<char>) -> spec_fn(String) -> bool {
    |cp: String| trim_slashes(strip_prefix_of(prefix, cp@)).len() > 0
}

/// Object records of a delimiter listing are kept when they carry a key other
/// than the listed prefix itself.
pub open spec fn file_kept(prefix: Seq<char>) -> spec_fn(RawObject) -> bool {
    |ro: RawObject| ro.key is Some && ro.key.unwrap()@ != prefix
}

/// `o` is the synthetic directory row shaped from the common prefix `cp`.
pub open spec fn shaped_dir(prefix: Seq<char>, cp: String, o: ObjectEntry) -> bool {
    &&& o.key == cp
    &&& o.display_name@ == trim_slashes(strip_prefix_of(prefix, cp@))
    &&& o.size == 0
    &&& o.last_modified is None
    &&& o.is_dir
}

/// `o` is the file row shaped from the raw object record `ro`.
pub open spec fn shaped_file(prefix: Seq<char>, ro: RawObject, o: ObjectEntry) -> bool {
    &&& ro.key is Some
    &&& o.key == ro.key.unwrap()
    &&& o.display_name@ == strip_prefix_of(prefix, ro.key.unwrap()@)
    &&& o.size == size_or_zero(ro.size)
    &&& opt_time_text(ro.last_modified, o.last_modified)
    &&& !o.is_dir
}

/// Shape one delimiter-listing page: directory rows from the common prefixes
/// first (skipping ones that collapse to the prefix itself), then file rows
/// (skipping the listed prefix when it is returned as an object).
pub fn shape_object_listing(
    prefix: &str,
    common_prefixes: Vec<String>,
    contents: Vec<RawObject>,
) -> (r: Vec<ObjectEntry>)
    ensures
        ({
            let dirs = common_prefixes@.filter(dir_kept(prefix@));
            let files = contents@.filter(file_kept(prefix@));
            &&& r@.len() == dirs.len() + files.len()
            &&& forall|i: int| 0 <= i < dirs.len() ==> shaped_dir(prefix@, #[trigger] dirs[i], r@[i])
            &&& forall|i: int|
                0 <= i < files.len() ==> shaped_file(prefix@, #[trigger] files[i], r@[dirs.len() + i])
        }),
{
    let mut out: Vec<ObjectEntry> = Vec::new();
    let mut i: usize = 0;
    proof {
        reveal(Seq::filter);
        assert(common_prefixes@.take(0int).filter(dir_kept(prefix@)) =~= Seq::<String>::empty());
    }
    while i < common_prefixes.len()
        invariant
            i <= common_prefixes@.len(),
            out@.len() == common_prefixes@.take(i as int).filter(dir_kept(prefix@)).len(),
            forall|k: int|
                0 <= k < out@.len() ==> shaped_dir(
                    prefix@,
                    #[trigger] common_prefixes@.take(i as int).filter(dir_kept(prefix@))[k],
                    out@[k],
                ),
        decreases common_prefixes@.len() - i,
    {
        let ghost pre = common_prefixes@.take(i as int).filter(dir_kept(prefix@));
        proof {
            reveal(Seq::filter);
            assert(common_prefixes@.take(i + 1).drop_last() =~= common_prefixes@.take(i as int));
            assert(common_prefixes@.take(i + 1).last() == common_prefixes@[i as int]);
        }
        let stripped = strip_prefix_or_self(common_prefixes[i].as_str(), prefix);
        let display = trim_trailing_slashes(stripped.as_str());
        if !display.as_str().is_empty() {
            let key = common_prefixes[i].clone();
            out.push(
                ObjectEntry {
                    key,
                    display_name: display,
                    size: 0,
                    last_modified: None,
                    is_dir: true,
                },
            );
            proof {
                assert(common_prefixes@.take(i + 1).filter(dir_kept(prefix@)) =~= pre.push(
                    common_prefixes@[i as int],
                ));
            }
        } else {
            proof {
                assert(common_prefixes@.take(i + 1).filter(dir_kept(prefix@)) =~= pre);
            }
        }
        i = i + 1;
    }
    proof {
        assert(common_prefixes@.take(common_prefixes@.len() as int) =~= common_prefixes@);
    }
    let ghost dirs = common_prefixes@.filter(dir_kept(prefix@));
    let mut j: usize = 0;
    proof {
        reveal(Seq::filter);
        assert(contents@.take(0int).filter(file_kept(prefix@)) =~= Seq::<RawObject>::empty());
    }
    while j < contents.len()
        invariant
            j <= contents@.len(),
            out@.len() == dirs.len() + contents@.take(j as int).filter(file_kept(prefix@)).len(),
            forall|k: int| 0 <= k < dirs.len() ==> shaped_dir(prefix@, #[trigger] dirs[k], out@[k]),
            forall|k: int|
                0 <= k < contents@.take(j as int).filter(file_kept(prefix@)).len() ==> shaped_file(
                    prefix@,
                    #[trigger] contents@.take(j as int).filter(file_kept(prefix@))[k],
                    out@[dirs.len() + k],
                ),
        decreases contents@.len() - j,
    {
        let ghost pre = contents@.take(j as int).filter(file_kept(prefix@));
        proof {
            reveal(Seq::filter);
            assert(contents@.take(j + 1).drop_last() =~= contents@.take(j as int));
            assert(contents@.take(j + 1).last() == contents@[j as int]);
        }
        let keep: bool = match &contents[j].key {
            Some(key) => !str_eq(key.as_str(), prefix),
            None => false,
        };
        if keep {
            let key = match &contents[j].key {
                Some(key) => key.clone(),
                None => String::new(),
            };
            let display = strip_prefix_or_self(key.as_str(), prefix);
            let modified = format_opt_timestamp(&contents[j].last_modified);
            let size: i64 = match contents[j].size {
                Some(n) => n,
                None => 0,
            };
            out.push(
                ObjectEntry { key, display_name: display, size, last_modified: modified, is_dir: false },
            );
            proof {
                assert(contents@.take(j + 1).filter(file_kept(prefix@)) =~= pre.push(
                    contents@[j as int],
                ));
            }
        } else {
            proof {
                assert(contents@.take(j + 1).filter(file_kept(prefix@)) =~= pre);
            }
        }
        j = j + 1;
    }
    proof {
        assert(contents@.take(contents@.len() as int) =~= contents@);
    }
    out
}

/// Flat-listing records are kept for the index pool when they carry a key
/// that does not end in a separator.
pub open spec fn index_kept() -> spec_fn(RawObject) -> bool {
    |ro: RawObject| ro.key is Some && !ends_with_slash(ro.key.unwrap()@)
}

/// `o` is the index-pool record shaped from the raw object record `ro`: the
/// whole key doubles as the display name.
pub open spec fn shaped_index_entry(ro: RawObject, o: ObjectEntry) -> bool {
    &&& ro.key is Some
    &&& o.key == ro.key.unwrap()
    &&& o.display_name@ == ro.key.unwrap()@
    &&& o.size == size_or_zero(ro.size)
    &&& opt_time_text(ro.last_modified, o.last_modified)
    &&& !o.is_dir
}

/// Shape one flat-listing page into an index batch: skip key-less records and
/// zero-byte directory markers, keep order.
pub fn index_batch_from_page(contents: Vec<RawObject>) -> (r: Vec<ObjectEntry>)
    ensures
        r@.len() == contents@.filter(index_kept()).len(),
        forall|i: int|
            0 <= i < r@.len() ==> shaped_index_entry(
                #[trigger] contents@.filter(index_kept())[i],
                r@[i],
            ),
{
    let mut out: Vec<ObjectEntry> = Vec::new();
    let mut i: usize = 0;
    proof {
        reveal(Seq::filter);
        assert(contents@.take(0int).filter(index_kept()) =~= Seq::<RawObject>::empty());
    }
    while i < contents.len()
        invariant
            i <= contents@.len(),
            out@.len() == contents@.take(i as int).filter(index_kept()).len(),
            forall|k: int|
                0 <= k < out@.len() ==> shaped_index_entry(
                    #[trigger] contents@.take(i as int).filter(index_kept())[k],
                    out@[k],
                ),
        decreases contents@.len() - i,
    {
        let ghost pre = contents@.take(i as int).filter(index_kept());
        proof {
            reveal(Seq::filter);
            assert(contents@.take(i + 1).drop_last() =~= contents@.take(i as int));
            assert(contents@.take(i + 1).last() == contents@[i as int]);
        }
        let keep: bool = match &contents[i].key {
            Some(key) => !str_ends_with_slash(key.as_str()),
            None => false,
        };
        if keep {
            let key = match &contents[i].key {
                Some(key) => key.clone(),
                None => String::new(),
            };
            let display = key.clone();
            let modified = format_opt_timestamp(&contents[i].last_modified);
            let size: i64 = match contents[i].size {
                Some(n) => n,
                None => 0,
            };
            out.push(
                ObjectEntry { key, display_name: display, size, last_modified: modified, is_dir: false },
            );
            proof {
                assert(contents@.take(i + 1).filter(index_kept()) =~= pre.push(
                    contents@[i as int],
                ));
            }
        } else {
            proof {
                assert(contents@.take(i + 1).filter(index_kept()) =~= pre);
            }
        }
        i = i + 1;
    }
    proof {
        assert(contents@.take(contents@.len() as int) =~= contents@);
    }
    out
}

/// Assemble the metadata record a head request reports, formatting its
/// timestamp.
pub fn make_object_metadata(
    key: String,
    size: i64,
    content_type: Option<String>,
    last_modified: Option<Timestamp>,
    etag: Option<String>,
    version_id: Option<String>,
    storage_class: Option<String>,
    user_metadata: Vec<(String, String)>,
    content_encoding: Option<String>,
    cache_control: Option<String>,
) -> (m: ObjectMetadata)
    ensures
        m.key == key,
        m.size == size,
        m.content_type == content_type,
        opt_time_text(last_modified, m.last_modified),
        m.etag == etag,
        m.version_id == version_id,
        m.storage_class == storage_class,
        m.user_metadata == user_metadata,
        m.content_encoding == content_encoding,
        m.cache_control == cache_control,
{
    let last_modified = format_opt_timestamp(&last_modified);
    ObjectMetadata {
        key,
        size,
        content_type,
        last_modified,
        etag,
        version_id,
        storage_class,
        user_metadata,
        content_encoding,
        cache_control,
    }
}


} // verus!
