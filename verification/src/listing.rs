//! Object keys and bucket listings: folder keys, which listed entries are
//! direct children of a prefix, preview limits, delete batches, endpoints,
//! and the messages shown when a listing fails.
use vstd::prelude::*;
use crate::error::AppError;
use crate::models::{BucketInfo, MultipartUploadInfo, ObjectInfo, Timestamp};
use crate::text::{
    decimal, u64_to_decimal, chars_eq, chars_of, concat_chars, contains_chars, contains_seq, ends_with, ends_with_char, has_prefix,
    has_suffix, is_prefix, is_suffix, string_of, sub_chars,
};
use crate::transfer::copy_opt_string;

verus! {

/// The key of the folder `key`: `key` with a trailing `/`.
pub open spec fn spec_folder_key(key: Seq<char>) -> Seq<char> {
    if ends_with_char(key, '/') {
        key
    } else {
        key.push('/')
    }
}

/// The folder key of `key`: unchanged when it already ends in `/`, else with
/// one appended.
pub fn folder_key(key: &str) -> (r: String)
    ensures
        r@ == spec_folder_key(key@),
{
    let k = chars_of(key);
    if ends_with(&k, '/') {
        string_of(&k)
    } else {
        let mut k2 = k;
        k2.push('/');
        string_of(&k2)
    }
}

/// Folder keys end in exactly one added `/`: applying it twice changes nothing.
pub proof fn lemma_folder_key_idempotent(key: Seq<char>)
    ensures
        ends_with_char(spec_folder_key(key), '/'),
        spec_folder_key(spec_folder_key(key)) == spec_folder_key(key),
{
}

/// A non-empty listing prefix, as a folder key.
pub open spec fn spec_normalized_prefix(prefix: Option<Seq<char>>) -> Option<Seq<char>> {
    match prefix {
        Some(p) => if p.len() > 0 { Some(spec_folder_key(p)) } else { None },
        None => None,
    }
}

/// The listing prefix as a folder key; none when absent or empty.
pub fn normalized_prefix(prefix: Option<&str>) -> (r: Option<String>)
    ensures
        match r {
            Some(s) => spec_normalized_prefix(opt_view(prefix)) == Some(s@),
            None => spec_normalized_prefix(opt_view(prefix)) is None,
        },
{
    match prefix {
        Some(p) => if p.unicode_len() > 0 {
            Some(folder_key(p))
        } else {
            None
        },
        None => None,
    }
}

/// A relative file path with its backslash separators turned into `/`.
pub open spec fn forward_slashes(s: Seq<char>) -> Seq<char> {
    s.map_values(|c: char| if c == '\\' { '/' } else { c })
}

/// The key an uploaded file gets: its relative path, with `/` separators,
/// inside the folder `prefix` (at the top of the bucket when `prefix` is
/// empty).
pub open spec fn spec_object_key(prefix: Seq<char>, rel: Seq<char>) -> Seq<char> {
    match spec_normalized_prefix(Some(prefix)) {
        Some(p) => p + forward_slashes(rel),
        None => forward_slashes(rel),
    }
}

/// The key for a file uploaded into folder `prefix` at relative path `rel`.
pub fn object_key(prefix: &str, rel: &str) -> (r: String)
    ensures
        r@ == spec_object_key(prefix@, rel@),
{
    let r = chars_of(rel);
    let mut out: Vec<char> = Vec::new();
    let mut i: usize = 0;
    while i < r.len()
        invariant
            i <= r.len(),
            out@ == forward_slashes(r@.subrange(0, i as int)),
        decreases r.len() - i,
    {
        let c = r[i];
        out.push(if c == '\\' { '/' } else { c });
        assert(forward_slashes(r@.subrange(0, i + 1)) =~= forward_slashes(r@.subrange(0, i as int)).push(
            if c == '\\' { '/' } else { c },
        ));
        i = i + 1;
    }
    assert(r@.subrange(0, r.len() as int) == r@);
    match normalized_prefix(Some(prefix)) {
        Some(p) => string_of(&concat_chars(&chars_of(p.as_str()), &out)),
        None => string_of(&out),
    }
}

/// A folder upload keeps its layout: the file at relative path `rel` lands
/// at `rel` below the folder, and nothing of `rel` is lost.
pub proof fn lemma_upload_keeps_layout(prefix: Seq<char>, rel: Seq<char>)
    requires
        !rel.contains('\\'),
    ensures
        prefix.len() > 0 ==> spec_object_key(prefix, rel) == spec_folder_key(prefix) + rel,
        prefix.len() == 0 ==> spec_object_key(prefix, rel) == rel,
{
    assert(forward_slashes(rel) =~= rel) by {
        assert forall|i: int| 0 <= i < rel.len() implies forward_slashes(rel)[i] == rel[i] by {
            if rel[i] == '\\' {
                assert(rel.contains('\\'));
            }
        }
    }
}

/// The text of an optional string slice.
pub open spec fn opt_view(o: Option<&str>) -> Option<Seq<char>> {
    match o {
        Some(s) => Some(s@),
        None => None,
    }
}

/// The folder entry for a common prefix of a delimited listing.
pub fn object_info_from_common_prefix(prefix: &str) -> (r: Option<ObjectInfo>)
    ensures
        prefix@.len() == 0 <==> r is None,
        r matches Some(o) ==> o.key@ == spec_folder_key(prefix@) && o.size == 0 && o.last_modified is None
            && o.etag is None && o.is_directory,
{
    if prefix.unicode_len() == 0 {
        return None;
    }
    Some(ObjectInfo { key: folder_key(prefix), size: 0, last_modified: None, etag: None, is_directory: true })
}

/// The part of `key` below the listing prefix, when the entry is a direct
/// child of it: the key minus the prefix, not empty, with no `/`.
pub open spec fn child_name(key: Seq<char>, prefix: Option<Seq<char>>) -> Option<Seq<char>> {
    let remainder = match spec_normalized_prefix(prefix) {
        Some(p) => if key == p || !is_prefix(p, key) {
            None
        } else {
            Some(key.subrange(p.len() as int, key.len() as int))
        },
        None => Some(key),
    };
    match remainder {
        Some(r) => if r.len() == 0 || r.contains('/') { None } else { Some(r) },
        None => None,
    }
}

/// A listed object is shown when its key is not empty and it is a direct
/// child of the prefix (not the folder marker itself, not nested deeper).
pub open spec fn spec_shows_listed(key: Seq<char>, prefix: Option<Seq<char>>) -> bool {
    key.len() > 0 && child_name(key, prefix) is Some
}

/// The browser entry for a listed object, or none when it is not a direct
/// child of the prefix being browsed.
pub fn object_info_from_listed_object(
    key: &str,
    size: i64,
    last_modified: Option<Timestamp>,
    etag: Option<String>,
    prefix: Option<&str>,
) -> (r: Option<ObjectInfo>)
    ensures
        r is Some <==> spec_shows_listed(key@, opt_view(prefix)),
        r matches Some(o) ==> o.key@ == key@ && o.size == size && o.last_modified == last_modified && o.etag == etag
            && o.is_directory == ends_with_char(key@, '/'),
{
    let k = chars_of(key);
    if k.len() == 0 {
        return None;
    }
    let remainder = match normalized_prefix(prefix) {
        Some(p) => {
            let pc = chars_of(p.as_str());
            if chars_eq(&k, &pc) {
                return None;
            }
            if !has_prefix(&k, &pc) {
                return None;
            }
            sub_chars(&k, pc.len(), k.len())
        },
        None => k.clone(),
    };
    if remainder.len() == 0 {
        return None;
    }
    if crate::text::find_char(&remainder, '/').is_some() {
        return None;
    }
    let is_directory = ends_with(&k, '/');
    Some(ObjectInfo { key: string_of(&k), size, last_modified, etag, is_directory })
}

/// An entry of the `Contents` of an S3 listing, as the SDK reports it.
#[derive(Clone, Debug)]
pub struct ListedObject {
    pub key: Option<String>,
    pub size: Option<i64>,
    pub last_modified: Option<Timestamp>,
    pub e_tag: Option<String>,
}

/// The key of a listed entry, empty when the SDK gave none.
pub open spec fn listed_key(o: ListedObject) -> Seq<char> {
    match o.key {
        Some(k) => k@,
        None => Seq::empty(),
    }
}

/// What an entry of the browser shows: key, size, modification time,
/// ETag and whether it is a folder.
pub open spec fn entry_view(o: ObjectInfo) -> (Seq<char>, i64, Option<Timestamp>, Option<Seq<char>>, bool) {
    (o.key@, o.size, o.last_modified, match o.etag {
        Some(e) => Some(e@),
        None => None,
    }, o.is_directory)
}

/// The folders the common prefixes of a listing stand for, in order.
pub open spec fn folders_of(prefixes: Seq<Option<String>>) -> Seq<(Seq<char>, i64, Option<Timestamp>, Option<Seq<char>>, bool)>
    decreases prefixes.len(),
{
    if prefixes.len() == 0 {
        Seq::empty()
    } else {
        let rest = folders_of(prefixes.drop_last());
        match prefixes.last() {
            Some(p) => if p@.len() > 0 {
                rest.push((spec_folder_key(p@), 0i64, None, None, true))
            } else {
                rest
            },
            None => rest,
        }
    }
}

/// The listed objects that are direct children of `prefix`, in order.
pub open spec fn children_of(contents: Seq<ListedObject>, prefix: Option<Seq<char>>) -> Seq<(Seq<char>, i64, Option<Timestamp>, Option<Seq<char>>, bool)>
    decreases contents.len(),
{
    if contents.len() == 0 {
        Seq::empty()
    } else {
        let rest = children_of(contents.drop_last(), prefix);
        let o = contents.last();
        let k = listed_key(o);
        if spec_shows_listed(k, prefix) {
            rest.push((k, match o.size {
                Some(s) => s,
                None => 0,
            }, o.last_modified, match o.e_tag {
                Some(e) => Some(e@),
                None => None,
            }, ends_with_char(k, '/')))
        } else {
            rest
        }
    }
}

/// One page of the object browser: the folders of the common prefixes
/// first, then the objects that are direct children of `prefix`, each in
/// listing order.
pub fn assemble_listing(
    common_prefixes: &Vec<Option<String>>,
    contents: &Vec<ListedObject>,
    prefix: Option<&str>,
) -> (r: Vec<ObjectInfo>)
    ensures
        r@.map_values(|o: ObjectInfo| entry_view(o)) == folders_of(common_prefixes@) + children_of(contents@, opt_view(prefix)),
{
    let mut r: Vec<ObjectInfo> = Vec::new();
    let mut i: usize = 0;
    while i < common_prefixes.len()
        invariant
            i <= common_prefixes.len(),
            r@.map_values(|o: ObjectInfo| entry_view(o)) == folders_of(common_prefixes@.subrange(0, i as int)),
        decreases common_prefixes.len() - i,
    {
        assert(common_prefixes@.subrange(0, i + 1).drop_last() == common_prefixes@.subrange(0, i as int));
        let ghost before = r@;
        match &common_prefixes[i] {
            Some(p) => match object_info_from_common_prefix(p.as_str()) {
                Some(o) => {
                    r.push(o);
                    assert(r@.map_values(|o: ObjectInfo| entry_view(o)) =~= before.map_values(|o: ObjectInfo| entry_view(o)).push(entry_view(o)));
                },
                None => {},
            },
            None => {},
        }
        i = i + 1;
    }
    assert(common_prefixes@.subrange(0, common_prefixes.len() as int) == common_prefixes@);
    let ghost folders = r@.map_values(|o: ObjectInfo| entry_view(o));
    let mut j: usize = 0;
    while j < contents.len()
        invariant
            j <= contents.len(),
            folders == folders_of(common_prefixes@),
            r@.map_values(|o: ObjectInfo| entry_view(o)) == folders + children_of(contents@.subrange(0, j as int), opt_view(prefix)),
        decreases contents.len() - j,
    {
        assert(contents@.subrange(0, j + 1).drop_last() == contents@.subrange(0, j as int));
        let obj = &contents[j];
        let key = match &obj.key {
            Some(k) => k.clone(),
            None => String::new(),
        };
        let size = match obj.size {
            Some(s) => s,
            None => 0,
        };
        let ghost before = r@;
        assert(listed_key(contents@[j as int]) == key@);
        match object_info_from_listed_object(key.as_str(), size, obj.last_modified, copy_opt_string(&obj.e_tag), prefix) {
            Some(o) => {
                r.push(o);
                assert(r@.map_values(|o: ObjectInfo| entry_view(o)) =~= before.map_values(|o: ObjectInfo| entry_view(o)).push(entry_view(o)));
            },
            None => {},
        }
        j = j + 1;
    }
    assert(contents@.subrange(0, contents.len() as int) == contents@);
    r
}

/// What the preview shows of a listed object: its key (empty when the SDK
/// gave none), its size (0 when unknown), its modification time and ETag,
/// and whether its key ends with `/`.
pub open spec fn preview_view(o: ListedObject) -> (Seq<char>, i64, Option<Timestamp>, Option<Seq<char>>, bool) {
    (listed_key(o), match o.size {
        Some(s) => s,
        None => 0,
    }, o.last_modified, match o.e_tag {
        Some(e) => Some(e@),
        None => None,
    }, match o.key {
        Some(k) => ends_with_char(k@, '/'),
        None => false,
    })
}

/// The browser entry for an object found while previewing a folder.
pub fn preview_entry(obj: &ListedObject) -> (r: ObjectInfo)
    ensures
        r.key@ == listed_key(*obj),
        r.size == match obj.size {
            Some(s) => s,
            None => 0,
        },
        r.last_modified == obj.last_modified,
        r.etag == obj.e_tag,
        r.is_directory == match obj.key {
            Some(k) => ends_with_char(k@, '/'),
            None => false,
        },
{
    let key = match &obj.key {
        Some(k) => k.clone(),
        None => String::new(),
    };
    let is_directory = match &obj.key {
        Some(k) => ends_with(&chars_of(k.as_str()), '/'),
        None => false,
    };
    ObjectInfo {
        key,
        size: match obj.size {
            Some(s) => s,
            None => 0,
        },
        last_modified: obj.last_modified,
        etag: copy_opt_string(&obj.e_tag),
        is_directory,
    }
}

/// Adds the objects of one listing page to a folder preview, stopping once
/// `max_items` entries are collected. Returns whether an entry of the page
/// was left out (there is more than the preview shows).
pub fn preview_page(acc: &mut Vec<ObjectInfo>, page: &Vec<ListedObject>, max_items: usize) -> (has_more: bool)
    ensures
        final(acc).len() <= if old(acc).len() >= max_items { old(acc).len() as int } else { max_items as int },
        final(acc)@.subrange(0, old(acc).len() as int) == old(acc)@,
        final(acc).len() == old(acc).len() + if page.len() < max_items - old(acc).len() {
            page.len() as int
        } else if old(acc).len() >= max_items {
            0
        } else {
            max_items - old(acc).len()
        },
        has_more == (page.len() > final(acc).len() - old(acc).len()),
        forall|i: int| old(acc).len() <= i < final(acc).len() ==> entry_view(#[trigger] final(acc)@[i]) == preview_view(
            page@[i - old(acc).len()],
        ),
{
    let ghost start = acc.len();
    let ghost before = acc@;
    let mut i: usize = 0;
    while i < page.len()
        invariant
            i <= page.len(),
            acc.len() == start + i,
            start == old(acc).len(),
            before == old(acc)@,
            acc@.subrange(0, start as int) == before,
            i > 0 ==> acc.len() <= max_items,
            forall|k: int| start <= k < acc.len() ==> entry_view(#[trigger] acc@[k]) == preview_view(page@[k - start]),
        decreases page.len() - i,
    {
        if acc.len() >= max_items {
            return true;
        }
        let e = preview_entry(&page[i]);
        let ghost prev = acc@;
        acc.push(e);
        proof {
            assert(acc@.subrange(0, start as int) == prev.subrange(0, start as int));
            assert forall|k: int| start <= k < acc.len() implies entry_view(#[trigger] acc@[k]) == preview_view(page@[k - start]) by {
                if k < prev.len() {
                    assert(acc@[k] == prev[k]);
                }
            }
        }
        i = i + 1;
    }
    false
}

/// The most keys one `DeleteObjects` request may name.
pub const DELETE_BATCH: usize = 1000;

/// The keys of `batches`, in order.
pub open spec fn flatten(batches: Seq<Seq<String>>) -> Seq<String>
    decreases batches.len(),
{
    if batches.len() == 0 {
        Seq::empty()
    } else {
        flatten(batches.drop_last()) + batches.last()
    }
}

/// Cuts the keys under a deleted folder into `DeleteObjects` requests of at
/// most 1000 keys each: every batch but the last is full, none is empty, and
/// together they name every key once, in order.
pub fn delete_batches(keys: &Vec<String>) -> (r: Vec<Vec<String>>)
    ensures
        flatten(r@.map_values(|b: Vec<String>| b@)) == keys@,
        forall|i: int| 0 <= i < r.len() ==> 0 < (#[trigger] r@[i]).len() <= DELETE_BATCH,
        forall|i: int| 0 <= i < r.len() - 1 ==> (#[trigger] r@[i]).len() == DELETE_BATCH,
        r.len() == (keys.len() + DELETE_BATCH - 1) / (DELETE_BATCH as int),
{
    let mut r: Vec<Vec<String>> = Vec::new();
    let mut i: usize = 0;
    while i < keys.len()
        invariant
            i <= keys.len(),
            i == r.len() * DELETE_BATCH || i == keys.len(),
            i < keys.len() ==> i == r.len() * DELETE_BATCH,
            i == keys.len() && keys.len() > 0 ==> r.len() == (keys.len() + DELETE_BATCH - 1) / (DELETE_BATCH as int),
            i == 0 ==> r.len() == 0,
            flatten(r@.map_values(|b: Vec<String>| b@)) == keys@.subrange(0, i as int),
            forall|k: int| 0 <= k < r.len() ==> 0 < (#[trigger] r@[k]).len() <= DELETE_BATCH,
            forall|k: int| 0 <= k < r.len() - 1 ==> (#[trigger] r@[k]).len() == DELETE_BATCH,
            i < keys.len() ==> forall|k: int| 0 <= k < r.len() ==> (#[trigger] r@[k]).len() == DELETE_BATCH,
        decreases keys.len() - i,
    {
        let end = if keys.len() - i > DELETE_BATCH { i + DELETE_BATCH } else { keys.len() };
        let mut batch: Vec<String> = Vec::new();
        let mut j: usize = i;
        while j < end
            invariant
                i <= j <= end <= keys.len(),
                batch@ == keys@.subrange(i as int, j as int),
            decreases end - j,
        {
            batch.push(keys[j].clone());
            j = j + 1;
        }
        let ghost old_r = r@;
        r.push(batch);
        proof {
            let m = r@.map_values(|b: Vec<String>| b@);
            assert(m.drop_last() == old_r.map_values(|b: Vec<String>| b@));
            assert(keys@.subrange(0, end as int) == keys@.subrange(0, i as int) + keys@.subrange(i as int, end as int));
            assert forall|k: int| 0 <= k < r.len() implies 0 < (#[trigger] r@[k]).len() <= DELETE_BATCH by {
                if k < old_r.len() {
                    assert(r@[k] == old_r[k]);
                }
            }
            assert forall|k: int| 0 <= k < r.len() - 1 implies (#[trigger] r@[k]).len() == DELETE_BATCH by {
                assert(r@[k] == old_r[k]);
            }
            if end < keys.len() {
                assert forall|k: int| 0 <= k < r.len() implies (#[trigger] r@[k]).len() == DELETE_BATCH by {
                    if k < old_r.len() {
                        assert(r@[k] == old_r[k]);
                    }
                }
            }
            if end == keys.len() {
                assert(r.len() == (keys.len() + DELETE_BATCH - 1) / (DELETE_BATCH as int)) by (nonlinear_arith)
                    requires
                        i == (r.len() - 1) * DELETE_BATCH,
                        0 < end - i <= DELETE_BATCH,
                        end == keys.len(),
                        DELETE_BATCH == 1000,
                {
                }
            }
        }
        i = end;
    }
    assert(keys@.subrange(0, keys.len() as int) == keys@);
    if keys.len() == 0 {
        assert(r@.map_values(|b: Vec<String>| b@) =~= Seq::<Seq<String>>::empty());
    }
    r
}

/// The URL of an R2 endpoint: kept when it names a scheme, else `https://`
/// is put in front.
pub open spec fn spec_endpoint_url(endpoint: Seq<char>) -> Seq<char> {
    if is_prefix("http://"@, endpoint) || is_prefix("https://"@, endpoint) {
        endpoint
    } else {
        "https://"@ + endpoint
    }
}

/// Whether to fetch another page of a listing: not once the caller has
/// enough (`stop`), and only when the page that came back named a next
/// continuation token, which is then the token to send.
pub fn next_listing_page(stop: bool, next_token: Option<String>) -> (r: Option<String>)
    ensures
        stop ==> r is None,
        !stop ==> r == next_token,
{
    if stop {
        None
    } else {
        next_token
    }
}

/// Whether a folder preview has what it needs after a page: it found more
/// than it shows, or it holds `max_items` entries.
pub fn preview_is_full(has_more: bool, collected: usize, max_items: usize) -> (r: bool)
    ensures
        r == (has_more || collected >= max_items),
{
    has_more || collected >= max_items
}

/// What one `DeleteObjects` answer means for a folder delete.
#[derive(Debug)]
pub struct BatchOutcome {
    /// Objects deleted so far, this batch included.
    pub deleted: usize,
    /// Whether to report progress (`deleted` of the total).
    pub report: bool,
    /// Whether the delete goes on, or fails for the objects this batch kept.
    pub result: Result<(), AppError>,
}

/// The message of a batch that failed for `errors` objects.
pub open spec fn batch_failure_message(errors: usize) -> Seq<char> {
    "Failed to delete "@ + decimal(errors as nat) + " objects"@
}

/// The outcome of a `DeleteObjects` answer that deleted `deleted_in_batch`
/// objects and reported `errors` failures, after `deleted_so_far` objects:
/// progress is reported only when the batch deleted something, and any
/// failure stops the delete with `Failed to delete <errors> objects`.
pub fn delete_batch_outcome(deleted_so_far: usize, deleted_in_batch: usize, errors: usize) -> (r: BatchOutcome)
    requires
        deleted_so_far + deleted_in_batch <= usize::MAX,
    ensures
        r.deleted == deleted_so_far + deleted_in_batch,
        r.report == (deleted_in_batch > 0),
        errors == 0 ==> r.result is Ok,
        errors > 0 ==> (r.result matches Err(AppError::S3Error(m)) && m@ == batch_failure_message(errors)),
{
    let deleted = deleted_so_far + deleted_in_batch;
    let result = if errors > 0 {
        let a = concat_chars(&chars_of("Failed to delete "), &u64_to_decimal(errors as u64));
        Err(AppError::S3Error(string_of(&concat_chars(&a, &chars_of(" objects")))))
    } else {
        Ok(())
    };
    BatchOutcome { deleted, report: deleted_in_batch > 0, result }
}

/// The URL the S3 client talks to for an account's endpoint.
pub fn endpoint_url(endpoint: &str) -> (r: String)
    ensures
        r@ == spec_endpoint_url(endpoint@),
{
    let e = chars_of(endpoint);
    if has_prefix(&e, &chars_of("http://")) || has_prefix(&e, &chars_of("https://")) {
        string_of(&e)
    } else {
        string_of(&concat_chars(&chars_of("https://"), &e))
    }
}

/// The message for a failed `ListBuckets`: network trouble when the SDK
/// error mentions `dispatch`, bad keys when it mentions `credential`,
/// `auth` or `signature`, else the SDK's own text.
pub open spec fn spec_list_buckets_error(debug: Seq<char>, display: Seq<char>) -> Seq<char> {
    if contains_seq(debug, "dispatch"@) {
        "网络连接失败，请检查: 1) 网络连接是否正常 2) R2 端点地址是否正确 3) 是否有代理或防火墙阻挡"@
    } else if contains_seq(debug, "credential"@) || contains_seq(debug, "auth"@) || contains_seq(debug, "signature"@) {
        "认证失败，请检查 Access Key ID 和 Secret Access Key 是否正确"@
    } else {
        "S3 请求失败: "@ + display
    }
}

/// The error a failed `ListBuckets` is reported as; `debug` and `display`
/// are the SDK error's debug and display texts.
pub fn list_buckets_error(debug: &str, display: &str) -> (r: AppError)
    ensures
        r matches AppError::S3Error(m) && m@ == spec_list_buckets_error(debug@, display@),
{
    let d = chars_of(debug);
    let m = if contains_chars(&d, &chars_of("dispatch")) {
        string_of(&chars_of("网络连接失败，请检查: 1) 网络连接是否正常 2) R2 端点地址是否正确 3) 是否有代理或防火墙阻挡"))
    } else if contains_chars(&d, &chars_of("credential")) || contains_chars(&d, &chars_of("auth")) || contains_chars(
        &d,
        &chars_of("signature"),
    ) {
        string_of(&chars_of("认证失败，请检查 Access Key ID 和 Secret Access Key 是否正确"))
    } else {
        string_of(&concat_chars(&chars_of("S3 请求失败: "), &chars_of(display)))
    };
    AppError::S3Error(m)
}

/// The message for a failed `ListObjectsV2`, classified like `ListBuckets`.
pub open spec fn spec_list_objects_error(debug: Seq<char>, display: Seq<char>) -> Seq<char> {
    if contains_seq(debug, "dispatch"@) {
        "网络连接失败，请检查网络连接是否正常"@
    } else if contains_seq(debug, "credential"@) || contains_seq(debug, "auth"@) || contains_seq(debug, "signature"@) {
        "认证失败，请检查密钥是否正确"@
    } else {
        "S3 请求失败: "@ + display
    }
}

/// The error a failed `ListObjectsV2` is reported as.
pub fn list_objects_error(debug: &str, display: &str) -> (r: AppError)
    ensures
        r matches AppError::S3Error(m) && m@ == spec_list_objects_error(debug@, display@),
{
    let d = chars_of(debug);
    let m = if contains_chars(&d, &chars_of("dispatch")) {
        string_of(&chars_of("网络连接失败，请检查网络连接是否正常"))
    } else if contains_chars(&d, &chars_of("credential")) || contains_chars(&d, &chars_of("auth")) || contains_chars(
        &d,
        &chars_of("signature"),
    ) {
        string_of(&chars_of("认证失败，请检查密钥是否正确"))
    } else {
        string_of(&concat_chars(&chars_of("S3 请求失败: "), &chars_of(display)))
    };
    AppError::S3Error(m)
}

/// The MIME type the preview assumes from a key's extension.
pub open spec fn spec_content_type(key: Seq<char>) -> Seq<char> {
    if is_suffix(".jpg"@, key) || is_suffix(".jpeg"@, key) {
        "image/jpeg"@
    } else if is_suffix(".png"@, key) {
        "image/png"@
    } else if is_suffix(".gif"@, key) {
        "image/gif"@
    } else if is_suffix(".txt"@, key) || is_suffix(".md"@, key) || is_suffix(".json"@, key) {
        "text/plain"@
    } else {
        "application/octet-stream"@
    }
}

/// The MIME type of a previewed object.
pub fn content_type_for_key(key: &str) -> (r: String)
    ensures
        r@ == spec_content_type(key@),
{
    let k = chars_of(key);
    let t = if has_suffix(&k, &chars_of(".jpg")) || has_suffix(&k, &chars_of(".jpeg")) {
        "image/jpeg"
    } else if has_suffix(&k, &chars_of(".png")) {
        "image/png"
    } else if has_suffix(&k, &chars_of(".gif")) {
        "image/gif"
    } else if has_suffix(&k, &chars_of(".txt")) || has_suffix(&k, &chars_of(".md")) || has_suffix(&k, &chars_of(".json")) {
        "text/plain"
    } else {
        "application/octet-stream"
    };
    string_of(&chars_of(t))
}

/// A bucket of a `ListBuckets` reply: a missing name reads as empty; counts
/// and sizes are not known from a listing.
pub fn bucket_info(name: Option<String>, creation_date: Option<Timestamp>) -> (r: BucketInfo)
    ensures
        r.name@ == match name {
            Some(n) => n@,
            None => Seq::empty(),
        },
        r.creation_date == creation_date,
        r.object_count is None,
        r.total_size is None,
{
    BucketInfo {
        name: match name {
            Some(n) => n,
            None => String::new(),
        },
        creation_date,
        object_count: None,
        total_size: None,
    }
}

/// The bucket named `name` among `buckets`, or `BucketNotFound(name)`.
pub fn find_bucket(buckets: Vec<BucketInfo>, name: &str) -> (r: Result<BucketInfo, AppError>)
    ensures
        match r {
            Ok(b) => b.name@ == name@ && exists|i: int| 0 <= i < buckets.len() && buckets@[i] == b && forall|j: int|
                0 <= j < i ==> buckets@[j].name@ != name@,
            Err(e) => (e matches AppError::BucketNotFound(m) && m@ == name@) && forall|j: int| 0 <= j < buckets.len() ==> buckets@[j].name@ != name@,
        },
{
    let n = chars_of(name);
    let mut i: usize = 0;
    while i < buckets.len()
        invariant
            i <= buckets.len(),
            n@ == name@,
            forall|j: int| 0 <= j < i ==> buckets@[j].name@ != name@,
        decreases buckets.len() - i,
    {
        let b = &buckets[i];
        let bn = chars_of(b.name.as_str());
        if chars_eq(&bn, &n) {
            let found = BucketInfo {
                name: b.name.clone(),
                creation_date: b.creation_date,
                object_count: b.object_count,
                total_size: b.total_size,
            };
            assert(buckets@[i as int] == found);
            return Ok(found);
        }
        assert(buckets@[i as int].name@ != name@);
        i = i + 1;
    }
    Err(AppError::BucketNotFound(name.to_owned()))
}

/// An unfinished multipart upload of a `ListMultipartUploads` reply; missing
/// keys and upload ids read as empty.
pub fn multipart_upload_info(
    key: Option<String>,
    upload_id: Option<String>,
    initiated: Option<Timestamp>,
    storage_class: Option<String>,
) -> (r: MultipartUploadInfo)
    ensures
        r.key@ == match key {
            Some(k) => k@,
            None => Seq::empty(),
        },
        r.upload_id@ == match upload_id {
            Some(u) => u@,
            None => Seq::empty(),
        },
        r.initiated == initiated,
        r.storage_class == storage_class,
{
    MultipartUploadInfo {
        key: match key {
            Some(k) => k,
            None => String::new(),
        },
        upload_id: match upload_id {
            Some(u) => u,
            None => String::new(),
        },
        initiated,
        storage_class,
    }
}

/// A listed object is shown in the folder `prefix` exactly when its key is
/// the folder's key followed by a non-empty name without `/`: a key nested
/// deeper, the folder marker itself and keys outside the folder are not
/// shown.
pub proof fn lemma_shown_iff_direct_child(key: Seq<char>, prefix: Seq<char>)
    requires
        prefix.len() > 0,
    ensures
        spec_shows_listed(key, Some(prefix)) <==> exists|name: Seq<char>|
            name.len() > 0 && !name.contains('/') && key == #[trigger] (spec_folder_key(prefix) + name),
{
    let f = spec_folder_key(prefix);
    if spec_shows_listed(key, Some(prefix)) {
        let name = key.subrange(f.len() as int, key.len() as int);
        assert(key == f + name);
    }
    if exists|name: Seq<char>| name.len() > 0 && !name.contains('/') && key == #[trigger] (f + name) {
        let name = choose|name: Seq<char>| name.len() > 0 && !name.contains('/') && key == #[trigger] (f + name);
        assert(key.subrange(0, f.len() as int) == f);
        assert(key.subrange(f.len() as int, key.len() as int) == name);
        assert(key.len() > f.len());
    }
}

/// At the top of a bucket (no prefix, or an empty one) an object is shown
/// exactly when its key is not empty and has no `/`.
pub proof fn lemma_shown_at_top(key: Seq<char>, prefix: Option<Seq<char>>)
    requires
        prefix matches Some(p) ==> p.len() == 0,
    ensures
        spec_shows_listed(key, prefix) <==> key.len() > 0 && !key.contains('/'),
{
}

/// The browser never shows the folder being browsed, nor anything nested
/// deeper, as an entry of its own: a shown object is never a folder key.
pub proof fn lemma_shown_entries_are_direct_children(key: Seq<char>, prefix: Seq<char>)
    ensures
        spec_shows_listed(key, Some(prefix)) ==> !ends_with_char(key, '/'),
        prefix.len() > 0 ==> !spec_shows_listed(spec_folder_key(prefix), Some(prefix)),
{
    if spec_shows_listed(key, Some(prefix)) && ends_with_char(key, '/') {
        let c = child_name(key, Some(prefix)).unwrap();
        assert(c.last() == '/');
        assert(c.contains('/'));
    }
}

} // verus!
