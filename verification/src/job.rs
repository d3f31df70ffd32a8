//! Job requests: the JSON fields a job form carries, their normalisation and
//! validation, and the decisions of adding, editing, pausing, enabling,
//! running and listing jobs.
use vstd::prelude::*;
use crate::i18n::{t, translated, I18n};
use crate::json::{as_bool, as_i64, as_str, field, get_bool, get_i64, get_str, JsonValue, JsonView};
use crate::paths::{overlapping, paths_overlap};
use crate::runner::list_items;
use crate::text::{
    chars_of, join, join_chars, parse_i32, parse_i64, parse_signed, split, split_chars, string_of,
    trim, trim_chars, views,
};

verus! {

/// The fields of a job form (the body of an add or edit request). `None`
/// means the key is absent; `is_object` is false when the body is not a
/// JSON object at all.
pub struct JobBody {
    pub is_object: bool,
    pub id: Option<JsonValue>,
    pub enable: Option<JsonValue>,
    pub remark: Option<JsonValue>,
    pub src_path: Option<JsonValue>,
    pub dst_path: Option<JsonValue>,
    pub alist_id: Option<JsonValue>,
    pub use_cache_t: Option<JsonValue>,
    pub scan_interval_t: Option<JsonValue>,
    pub use_cache_s: Option<JsonValue>,
    pub scan_interval_s: Option<JsonValue>,
    pub method: Option<JsonValue>,
    pub source_mode: Option<JsonValue>,
    pub interval: Option<JsonValue>,
    pub is_cron: Option<JsonValue>,
    pub year: Option<JsonValue>,
    pub month: Option<JsonValue>,
    pub day: Option<JsonValue>,
    pub week: Option<JsonValue>,
    pub day_of_week: Option<JsonValue>,
    pub hour: Option<JsonValue>,
    pub minute: Option<JsonValue>,
    pub second: Option<JsonValue>,
    pub start_date: Option<JsonValue>,
    pub end_date: Option<JsonValue>,
    pub exclude: Option<JsonValue>,
    pub min_file_size: Option<JsonValue>,
    pub max_file_size: Option<JsonValue>,
}

/// Mathematical model of a [`JobBody`].
pub struct BodyView {
    pub is_object: bool,
    pub id: Option<JsonView>,
    pub enable: Option<JsonView>,
    pub remark: Option<JsonView>,
    pub src_path: Option<JsonView>,
    pub dst_path: Option<JsonView>,
    pub alist_id: Option<JsonView>,
    pub use_cache_t: Option<JsonView>,
    pub scan_interval_t: Option<JsonView>,
    pub use_cache_s: Option<JsonView>,
    pub scan_interval_s: Option<JsonView>,
    pub method: Option<JsonView>,
    pub source_mode: Option<JsonView>,
    pub interval: Option<JsonView>,
    pub is_cron: Option<JsonView>,
    pub year: Option<JsonView>,
    pub month: Option<JsonView>,
    pub day: Option<JsonView>,
    pub week: Option<JsonView>,
    pub day_of_week: Option<JsonView>,
    pub hour: Option<JsonView>,
    pub minute: Option<JsonView>,
    pub second: Option<JsonView>,
    pub start_date: Option<JsonView>,
    pub end_date: Option<JsonView>,
    pub exclude: Option<JsonView>,
    pub min_file_size: Option<JsonView>,
    pub max_file_size: Option<JsonView>,
}

impl View for JobBody {
    type V = BodyView;

    open spec fn view(&self) -> BodyView {
        BodyView {
            is_object: self.is_object,
            id: field(self.id),
            enable: field(self.enable),
            remark: field(self.remark),
            src_path: field(self.src_path),
            dst_path: field(self.dst_path),
            alist_id: field(self.alist_id),
            use_cache_t: field(self.use_cache_t),
            scan_interval_t: field(self.scan_interval_t),
            use_cache_s: field(self.use_cache_s),
            scan_interval_s: field(self.scan_interval_s),
            method: field(self.method),
            source_mode: field(self.source_mode),
            interval: field(self.interval),
            is_cron: field(self.is_cron),
            year: field(self.year),
            month: field(self.month),
            day: field(self.day),
            week: field(self.week),
            day_of_week: field(self.day_of_week),
            hour: field(self.hour),
            minute: field(self.minute),
            second: field(self.second),
            start_date: field(self.start_date),
            end_date: field(self.end_date),
            exclude: field(self.exclude),
            min_file_size: field(self.min_file_size),
            max_file_size: field(self.max_file_size),
        }
    }
}

// ==================== scalar normalisation ====================

/// Why a file size value is rejected.
pub open spec fn file_size_message() -> Seq<char> {
    "文件大小格式无效"@
}

/// A file size setting read from a form: null is "no limit"; a
/// non-negative integer (as a number, or a string that parses as `i64`) is
/// the limit; anything else is invalid.
pub open spec fn file_size_value(v: JsonView) -> Option<Option<i64>> {
    match v {
        JsonView::Null => Some(None),
        JsonView::Number(Some(n)) => if n < 0 {
            None
        } else {
            Some(Some(n))
        },
        JsonView::Str(s) => match parse_signed(s, i64::MIN as int, i64::MAX as int) {
            Some(n) => if n < 0 {
                None
            } else {
                Some(Some(n as i64))
            },
            None => None,
        },
        _ => None,
    }
}

/// Normalises a file size setting (see [`file_size_value`]).
pub fn normalize_file_size(value: &JsonValue) -> (r: Result<Option<i64>, String>)
    ensures
        match r {
            Ok(v) => file_size_value(value@) == Some(v),
            Err(m) => file_size_value(value@) is None && m@ == file_size_message(),
        },
{
    match value {
        JsonValue::Null => Ok(None),
        JsonValue::Number(Some(n)) => if *n < 0 {
            Err("文件大小格式无效".to_string())
        } else {
            Ok(Some(*n))
        },
        JsonValue::Str(s) => {
            let c = chars_of(s.as_str());
            match parse_i64(&c) {
                Some(n) => if n < 0 {
                    Err("文件大小格式无效".to_string())
                } else {
                    Ok(Some(n))
                },
                None => Err("文件大小格式无效".to_string()),
            }
        },
        _ => Err("文件大小格式无效".to_string()),
    }
}

/// Why a source mode value is rejected.
pub open spec fn source_mode_message() -> Seq<char> {
    "sourceMode 无效"@
}

/// The source mode read from a form: null is 0, booleans are 1/0, numbers
/// (their `as_i64`, missing read as 0 — so an integer above `i64::MAX` is
/// 0 — cast to `i32`) must be 0 or 1, and
/// the strings `"0"` and `"1"`; anything else is invalid.
pub open spec fn source_mode_value(v: JsonView) -> Option<i32> {
    match v {
        JsonView::Null => Some(0),
        JsonView::Bool(b) => Some(if b { 1i32 } else { 0i32 }),
        JsonView::Number(n) => {
            let x: i32 = match n {
                Some(k) => k as i32,
                None => 0,
            };
            if x == 0 || x == 1 {
                Some(x)
            } else {
                None
            }
        },
        JsonView::Unsigned(_) => Some(0),
        JsonView::Str(s) => if s == "0"@ {
            Some(0)
        } else if s == "1"@ {
            Some(1)
        } else {
            None
        },
        _ => None,
    }
}

/// Normalises a source mode setting (see [`source_mode_value`]).
pub fn normalize_source_mode(value: &JsonValue) -> (r: Result<i32, String>)
    ensures
        match r {
            Ok(v) => source_mode_value(value@) == Some(v),
            Err(m) => source_mode_value(value@) is None && m@ == source_mode_message(),
        },
{
    match value {
        JsonValue::Null => Ok(0),
        JsonValue::Bool(b) => Ok(if *b { 1 } else { 0 }),
        JsonValue::Number(n) => {
            let x: i32 = match n {
                Some(k) => *k as i32,
                None => 0,
            };
            if x == 0 || x == 1 {
                Ok(x)
            } else {
                Err("sourceMode 无效".to_string())
            }
        },
        JsonValue::Unsigned(_) => Ok(0),
        JsonValue::Str(s) => if crate::files::str_eq(s.as_str(), "0") {
            Ok(0)
        } else if crate::files::str_eq(s.as_str(), "1") {
            Ok(1)
        } else {
            Err("sourceMode 无效".to_string())
        },
        _ => Err("sourceMode 无效".to_string()),
    }
}

// ==================== the whole form ====================

/// A text field: trimmed; when nothing is left it becomes null.
pub open spec fn norm_text(o: Option<JsonView>) -> Option<JsonView> {
    match o {
        Some(JsonView::Str(s)) => if trim(s).len() == 0 {
            Some(JsonView::Null)
        } else {
            Some(JsonView::Str(trim(s)))
        },
        _ => o,
    }
}

/// The exclusion list: entries trimmed, empty ones dropped, joined by `:`;
/// null when nothing is left.
pub open spec fn norm_exclude(o: Option<JsonView>) -> Option<JsonView> {
    match o {
        Some(JsonView::Str(s)) => {
            let n = join(list_items(split(s, ':')), seq![':']);
            if n.len() == 0 {
                Some(JsonView::Null)
            } else {
                Some(JsonView::Str(n))
            }
        },
        _ => o,
    }
}

/// The rejections of a job form.
#[derive(Debug, Clone, Copy, PartialEq, Eq, Structural)]
pub enum JobInputError {
    FileSize,
    SourceMode,
    SizeRange,
    Overlap,
}

/// Text fields trimmed, the exclusion list normalised, and a manual-only job
/// (`isCron` 2) forced enabled.
pub open spec fn clean_texts(b: BodyView) -> BodyView {
    let is_cron = match as_i64(b.is_cron) {
        Some(c) => c,
        None => 0,
    };
    let enable = match as_bool(b.enable) {
        Some(e) => e,
        None => true,
    };
    BodyView {
        enable: if is_cron == 2 && !enable {
            Some(JsonView::Bool(true))
        } else {
            b.enable
        },
        remark: norm_text(b.remark),
        src_path: norm_text(b.src_path),
        dst_path: norm_text(b.dst_path),
        year: norm_text(b.year),
        month: norm_text(b.month),
        day: norm_text(b.day),
        week: norm_text(b.week),
        day_of_week: norm_text(b.day_of_week),
        hour: norm_text(b.hour),
        minute: norm_text(b.minute),
        second: norm_text(b.second),
        start_date: norm_text(b.start_date),
        end_date: norm_text(b.end_date),
        exclude: norm_exclude(norm_text(b.exclude)),
        ..b
    }
}

/// A size field after normalisation: absent or null is null; otherwise its
/// value (`None` when invalid).
pub open spec fn size_field(o: Option<JsonView>) -> Option<JsonView> {
    match o {
        None => Some(JsonView::Null),
        Some(JsonView::Null) => Some(JsonView::Null),
        Some(v) => match file_size_value(v) {
            Some(Some(n)) => Some(JsonView::Number(Some(n))),
            Some(None) => Some(JsonView::Null),
            None => None,
        },
    }
}

/// Whether a source path overlaps any entry of a `:`-separated target list.
pub open spec fn overlaps_any(src: Seq<char>, dsts: Seq<Seq<char>>) -> bool {
    exists|i: int| 0 <= i < dsts.len() && overlapping(src, #[trigger] dsts[i])
}

/// The final checks: the size range, then source/target overlap.
pub open spec fn final_check(b: BodyView) -> Option<JobInputError> {
    let min = as_i64(b.min_file_size);
    let max = as_i64(b.max_file_size);
    let src = match as_str(b.src_path) {
        Some(s) => s,
        None => Seq::empty(),
    };
    let dst = match as_str(b.dst_path) {
        Some(s) => s,
        None => Seq::empty(),
    };
    if min is Some && max is Some && min.unwrap() > max.unwrap() {
        Some(JobInputError::SizeRange)
    } else if src.len() > 0 && dst.len() > 0 && overlaps_any(src, split(dst, ':')) {
        Some(JobInputError::Overlap)
    } else {
        None
    }
}

/// The form after normalisation and the rejection, if any. Normalisation
/// stops at the first invalid size or source mode, keeping what was already
/// rewritten.
pub open spec fn job_outcome(b: BodyView) -> (BodyView, Option<JobInputError>) {
    if !b.is_object {
        (b, final_check(b))
    } else {
        let b1 = clean_texts(b);
        match size_field(b1.min_file_size) {
            None => (b1, Some(JobInputError::FileSize)),
            Some(min) => {
                let b2 = BodyView { min_file_size: Some(min), ..b1 };
                match size_field(b2.max_file_size) {
                    None => (b2, Some(JobInputError::FileSize)),
                    Some(max) => {
                        let b3 = BodyView { max_file_size: Some(max), ..b2 };
                        let mode = match b3.source_mode {
                            None => Some(0i32),
                            Some(v) => source_mode_value(v),
                        };
                        match mode {
                            None => (b3, Some(JobInputError::SourceMode)),
                            Some(m) => {
                                let b4 = BodyView {
                                    source_mode: Some(JsonView::Number(Some(m as i64))),
                                    ..b3
                                };
                                (b4, final_check(b4))
                            },
                        }
                    },
                }
            },
        }
    }
}

/// The message of a rejection.
pub open spec fn job_error_message(i: crate::i18n::I18nView, e: JobInputError) -> Seq<char> {
    match e {
        JobInputError::FileSize => file_size_message(),
        JobInputError::SourceMode => source_mode_message(),
        JobInputError::SizeRange => translated(i, "file_size_range_invalid"@),
        JobInputError::Overlap => translated(i, "source_target_overlap"@),
    }
}

fn norm_text_exec(o: &mut Option<JsonValue>)
    ensures
        field(*final(o)) == norm_text(field(*old(o))),
{
    let replacement: Option<JsonValue> = match o {
        Some(JsonValue::Str(s)) => {
            let t = trim_chars(&chars_of(s.as_str()));
            if t.len() == 0 {
                Some(JsonValue::Null)
            } else {
                Some(JsonValue::Str(string_of(&t)))
            }
        },
        _ => None,
    };
    match replacement {
        Some(v) => {
            *o = Some(v);
        },
        None => {},
    }
}

fn norm_exclude_exec(o: &mut Option<JsonValue>)
    ensures
        field(*final(o)) == norm_exclude(field(*old(o))),
{
    let replacement: Option<JsonValue> = match o {
        Some(JsonValue::Str(s)) => {
            let items = crate::runner::dst_roots(s.as_str());
            let mut parts: Vec<Vec<char>> = Vec::new();
            let mut i: usize = 0;
            while i < items.len()
                invariant
                    i <= items@.len(),
                    views(parts@) == items@.map_values(|x: String| x@).subrange(0, i as int),
                decreases items@.len() - i,
            {
                let ghost before = views(parts@);
                let c = chars_of(items[i].as_str());
                parts.push(c);
                assert(views(parts@) =~= before.push(items@[i as int]@));
                i = i + 1;
                assert(views(parts@) =~= items@.map_values(|x: String| x@).subrange(0, i as int));
            }
            assert(items@.map_values(|x: String| x@).subrange(0, items@.len() as int)
                =~= items@.map_values(|x: String| x@));
            let sep = vec![':'];
            assert(sep@ =~= seq![':']);
            let n = join_chars(&parts, &sep);
            if n.len() == 0 {
                Some(JsonValue::Null)
            } else {
                Some(JsonValue::Str(string_of(&n)))
            }
        },
        _ => None,
    };
    match replacement {
        Some(v) => {
            *o = Some(v);
        },
        None => {},
    }
}

fn size_field_exec(o: &Option<JsonValue>) -> (r: Option<JsonValue>)
    ensures
        field(r) == size_field(field(*o)),
        r matches Some(v) ==> (v@ is Null || v@ is Number),
{
    match o {
        None => Some(JsonValue::Null),
        Some(JsonValue::Null) => Some(JsonValue::Null),
        Some(v) => match normalize_file_size(v) {
            Ok(Some(n)) => Some(JsonValue::Number(Some(n))),
            Ok(None) => Some(JsonValue::Null),
            Err(_) => None,
        },
    }
}

fn final_check_exec(b: &JobBody) -> (r: Option<JobInputError>)
    ensures
        r == final_check(b@),
{
    let min = get_i64(&b.min_file_size);
    let max = get_i64(&b.max_file_size);
    match (min, max) {
        (Some(a), Some(c)) => if a > c {
            return Some(JobInputError::SizeRange);
        },
        _ => {},
    }
    let src = match get_str(&b.src_path) {
        Some(s) => s,
        None => String::new(),
    };
    let dst = match get_str(&b.dst_path) {
        Some(s) => s,
        None => String::new(),
    };
    if src.unicode_len() > 0 && dst.unicode_len() > 0 {
        let parts = split_chars(&chars_of(dst.as_str()), ':');
        let ghost ps = split(dst@, ':');
        let mut i: usize = 0;
        while i < parts.len()
            invariant
                i <= parts@.len(),
                views(parts@) == ps,
                forall|k: int| 0 <= k < i ==> !overlapping(src@, #[trigger] ps[k]),
                min == as_i64(b@.min_file_size),
                max == as_i64(b@.max_file_size),
                !(min is Some && max is Some && min.unwrap() > max.unwrap()),
                src@ == text_or_empty(b@.src_path),
                dst@ == text_or_empty(b@.dst_path),
                src@.len() > 0,
                dst@.len() > 0,
                ps == split(dst@, ':'),
            decreases parts@.len() - i,
        {
            let d = string_of(&parts[i]);
            assert(ps[i as int] == d@);
            if paths_overlap(src.as_str(), d.as_str()) {
                assert(overlapping(src@, ps[i as int]));
                assert(overlaps_any(src@, ps));
                return Some(JobInputError::Overlap);
            }
            i = i + 1;
        }
    }
    None
}

/// Normalises and validates a job form in place (see [`job_outcome`]); on
/// rejection the message is that of [`job_error_message`].
pub fn validate_and_normalize_job(body: &mut JobBody, i18n: &I18n) -> (r: Result<(), String>)
    ensures
        final(body)@ == job_outcome(old(body)@).0,
        match job_outcome(old(body)@).1 {
            None => r is Ok,
            Some(e) => r matches Err(m) && m@ == job_error_message(i18n@, e),
        },
{
    if body.is_object {
        let is_cron = match get_i64(&body.is_cron) {
            Some(c) => c,
            None => 0,
        };
        let enable = match get_bool(&body.enable) {
            Some(e) => e,
            None => true,
        };
        if is_cron == 2 && !enable {
            body.enable = Some(JsonValue::Bool(true));
        }
        norm_text_exec(&mut body.remark);
        norm_text_exec(&mut body.src_path);
        norm_text_exec(&mut body.dst_path);
        norm_text_exec(&mut body.year);
        norm_text_exec(&mut body.month);
        norm_text_exec(&mut body.day);
        norm_text_exec(&mut body.week);
        norm_text_exec(&mut body.day_of_week);
        norm_text_exec(&mut body.hour);
        norm_text_exec(&mut body.minute);
        norm_text_exec(&mut body.second);
        norm_text_exec(&mut body.start_date);
        norm_text_exec(&mut body.end_date);
        norm_text_exec(&mut body.exclude);
        norm_exclude_exec(&mut body.exclude);
        match size_field_exec(&body.min_file_size) {
            Some(v) => {
                body.min_file_size = Some(v);
            },
            None => {
                return Err("文件大小格式无效".to_string());
            },
        }
        match size_field_exec(&body.max_file_size) {
            Some(v) => {
                body.max_file_size = Some(v);
            },
            None => {
                return Err("文件大小格式无效".to_string());
            },
        }
        let mode: i32 = match &body.source_mode {
            None => 0,
            Some(v) => match normalize_source_mode(v) {
                Ok(m) => m,
                Err(_) => {
                    return Err("sourceMode 无效".to_string());
                },
            },
        };
        body.source_mode = Some(JsonValue::Number(Some(mode as i64)));
    }
    match final_check_exec(body) {
        None => Ok(()),
        Some(JobInputError::SizeRange) => Err(t(i18n, "file_size_range_invalid")),
        Some(JobInputError::Overlap) => Err(t(i18n, "source_target_overlap")),
        Some(_) => Err(String::new()),
    }
}

// ==================== what is stored ====================

/// The values of a job as they are written to the store.
#[derive(Debug, Clone, PartialEq)]
pub struct JobValues {
    pub enable: bool,
    pub remark: Option<String>,
    pub src_path: String,
    pub dst_path: String,
    pub alist_id: Option<i64>,
    pub use_cache_t: i32,
    pub scan_interval_t: i32,
    pub use_cache_s: i32,
    pub scan_interval_s: i32,
    pub method: i32,
    pub source_mode: i32,
    pub interval: Option<i32>,
    pub is_cron: i32,
    pub year: Option<String>,
    pub month: Option<String>,
    pub day: Option<String>,
    pub week: Option<String>,
    pub day_of_week: Option<String>,
    pub hour: Option<String>,
    pub minute: Option<String>,
    pub second: Option<String>,
    pub start_date: Option<String>,
    pub end_date: Option<String>,
    pub exclude: Option<String>,
    pub min_file_size: Option<i64>,
    pub max_file_size: Option<i64>,
}

/// An integer field read as `as_i64().unwrap_or(0) as i32`.
pub open spec fn int_or_zero(o: Option<JsonView>) -> i32 {
    match as_i64(o) {
        Some(n) => n as i32,
        None => 0,
    }
}

/// A text field read as `as_str().unwrap_or("")`.
pub open spec fn text_or_empty(o: Option<JsonView>) -> Seq<char> {
    match as_str(o) {
        Some(s) => s,
        None => Seq::empty(),
    }
}

fn int_or_zero_exec(o: &Option<JsonValue>) -> (r: i32)
    ensures
        r == int_or_zero(field(*o)),
{
    match get_i64(o) {
        Some(n) => n as i32,
        None => 0,
    }
}

fn text_or_empty_exec(o: &Option<JsonValue>) -> (r: String)
    ensures
        r@ == text_or_empty(field(*o)),
{
    match get_str(o) {
        Some(s) => s,
        None => String::new(),
    }
}

/// The stored values of a (validated) form. A manual-only job (`isCron` 2)
/// is always stored enabled.
pub open spec fn job_values_ok(b: BodyView, v: JobValues) -> bool {
    let is_cron = int_or_zero(b.is_cron);
    let enable = match as_bool(b.enable) {
        Some(e) => e,
        None => true,
    };
    &&& v.enable == (enable || is_cron == 2)
    &&& crate::sync::opt_text(v.remark) == as_str(b.remark)
    &&& v.src_path@ == text_or_empty(b.src_path)
    &&& v.dst_path@ == text_or_empty(b.dst_path)
    &&& v.alist_id == as_i64(b.alist_id)
    &&& v.use_cache_t == int_or_zero(b.use_cache_t)
    &&& v.scan_interval_t == int_or_zero(b.scan_interval_t)
    &&& v.use_cache_s == int_or_zero(b.use_cache_s)
    &&& v.scan_interval_s == int_or_zero(b.scan_interval_s)
    &&& v.method == int_or_zero(b.method)
    &&& v.source_mode == int_or_zero(b.source_mode)
    &&& v.interval == (match as_i64(b.interval) {
        Some(n) => Some(n as i32),
        None => None,
    })
    &&& v.is_cron == is_cron
    &&& crate::sync::opt_text(v.year) == as_str(b.year)
    &&& crate::sync::opt_text(v.month) == as_str(b.month)
    &&& crate::sync::opt_text(v.day) == as_str(b.day)
    &&& crate::sync::opt_text(v.week) == as_str(b.week)
    &&& crate::sync::opt_text(v.day_of_week) == as_str(b.day_of_week)
    &&& crate::sync::opt_text(v.hour) == as_str(b.hour)
    &&& crate::sync::opt_text(v.minute) == as_str(b.minute)
    &&& crate::sync::opt_text(v.second) == as_str(b.second)
    &&& crate::sync::opt_text(v.start_date) == as_str(b.start_date)
    &&& crate::sync::opt_text(v.end_date) == as_str(b.end_date)
    &&& crate::sync::opt_text(v.exclude) == as_str(b.exclude)
    &&& v.min_file_size == as_i64(b.min_file_size)
    &&& v.max_file_size == as_i64(b.max_file_size)
}

/// Reads the values to store from a form.
pub fn job_values(body: &JobBody) -> (v: JobValues)
    ensures
        job_values_ok(body@, v),
{
    let is_cron = int_or_zero_exec(&body.is_cron);
    let enable = match get_bool(&body.enable) {
        Some(e) => e,
        None => true,
    };
    JobValues {
        enable: enable || is_cron == 2,
        remark: get_str(&body.remark),
        src_path: text_or_empty_exec(&body.src_path),
        dst_path: text_or_empty_exec(&body.dst_path),
        alist_id: get_i64(&body.alist_id),
        use_cache_t: int_or_zero_exec(&body.use_cache_t),
        scan_interval_t: int_or_zero_exec(&body.scan_interval_t),
        use_cache_s: int_or_zero_exec(&body.use_cache_s),
        scan_interval_s: int_or_zero_exec(&body.scan_interval_s),
        method: int_or_zero_exec(&body.method),
        source_mode: int_or_zero_exec(&body.source_mode),
        interval: match get_i64(&body.interval) {
            Some(n) => Some(n as i32),
            None => None,
        },
        is_cron,
        year: get_str(&body.year),
        month: get_str(&body.month),
        day: get_str(&body.day),
        week: get_str(&body.week),
        day_of_week: get_str(&body.day_of_week),
        hour: get_str(&body.hour),
        minute: get_str(&body.minute),
        second: get_str(&body.second),
        start_date: get_str(&body.start_date),
        end_date: get_str(&body.end_date),
        exclude: get_str(&body.exclude),
        min_file_size: get_i64(&body.min_file_size),
        max_file_size: get_i64(&body.max_file_size),
    }
}

/// The id of the job an edit request targets (`None`: a new job).
pub fn edit_target(body: &JobBody) -> (r: Option<i64>)
    ensures
        r == as_i64(body@.id),
{
    get_i64(&body.id)
}

/// An enabled job that is not manual-only must be disabled before editing.
pub fn edit_refused(old_enable: i32, old_is_cron: i32) -> (r: bool)
    ensures
        r == (old_enable == 1 && old_is_cron != 2),
{
    old_enable == 1 && old_is_cron != 2
}

/// The settings that decide what the source snapshot describes.
#[derive(Debug, Clone, PartialEq)]
pub struct SnapshotKey {
    pub alist_id: Option<i64>,
    pub src_path: String,
    pub dst_path: String,
    pub method: i32,
    pub exclude: Option<String>,
    pub min_file_size: Option<i64>,
    pub max_file_size: Option<i64>,
}

pub open spec fn snapshot_key_eq(a: SnapshotKey, b: SnapshotKey) -> bool {
    &&& a.alist_id == b.alist_id
    &&& a.src_path@ == b.src_path@
    &&& a.dst_path@ == b.dst_path@
    &&& a.method == b.method
    &&& crate::sync::opt_text(a.exclude) == crate::sync::opt_text(b.exclude)
    &&& a.min_file_size == b.min_file_size
    &&& a.max_file_size == b.max_file_size
}

/// The snapshot is dropped when an edit changes any of its settings.
pub fn snapshot_must_reset(old: &SnapshotKey, new: &SnapshotKey) -> (r: bool)
    ensures
        r == !snapshot_key_eq(*old, *new),
{
    let same_exclude = match (&old.exclude, &new.exclude) {
        (Some(a), Some(b)) => *a == *b,
        (None, None) => true,
        _ => false,
    };
    !(old.alist_id == new.alist_id && old.src_path == new.src_path && old.dst_path == new.dst_path
        && old.method == new.method && same_exclude && old.min_file_size == new.min_file_size
        && old.max_file_size == new.max_file_size)
}

/// A job gets a scheduler when it is enabled and not manual-only.
pub fn should_schedule(enable: bool, is_cron: i32) -> (r: bool)
    ensures
        r == (enable && is_cron != 2),
{
    enable && is_cron != 2
}

// ==================== pause / enable / run ====================

/// What a job control request asks for.
#[derive(Debug, Clone, Copy, PartialEq, Eq, Structural)]
pub enum JobControl {
    /// Stop the running tasks of a job.
    Abort { job_id: i64 },
    /// Disable a job.
    Disable { job_id: i64 },
    /// Enable a job.
    Enable { job_id: i64 },
    /// Run one job now.
    RunOne { job_id: i64 },
    /// Run every enabled job now.
    RunAll,
}

/// Classifies a job control request from its `pause`, `abort` and `id`
/// fields; a missing id reads as 0 where an id is required.
pub fn classify_job_put(pause: Option<bool>, has_abort: bool, id: Option<i64>) -> (r: JobControl)
    ensures
        r == (match pause {
            Some(true) => if has_abort {
                JobControl::Abort { job_id: if id is Some { id.unwrap() } else { 0 } }
            } else {
                JobControl::Disable { job_id: if id is Some { id.unwrap() } else { 0 } }
            },
            Some(false) => JobControl::Enable { job_id: if id is Some { id.unwrap() } else { 0 } },
            None => match id {
                Some(j) => JobControl::RunOne { job_id: j },
                None => JobControl::RunAll,
            },
        }),
{
    let jid = match id {
        Some(j) => j,
        None => 0,
    };
    match pause {
        Some(true) => if has_abort {
            JobControl::Abort { job_id: jid }
        } else {
            JobControl::Disable { job_id: jid }
        },
        Some(false) => JobControl::Enable { job_id: jid },
        None => match id {
            Some(j) => JobControl::RunOne { job_id: j },
            None => JobControl::RunAll,
        },
    }
}

/// A manual-only job cannot be disabled.
pub fn check_disable(is_cron: i32, i18n: &I18n) -> (r: Result<(), String>)
    ensures
        is_cron == 2 ==> (r matches Err(m) && m@ == translated(i18n@, "cannot_disable_manual_job"@)),
        is_cron != 2 ==> r is Ok,
{
    if is_cron == 2 {
        Err(t(i18n, "cannot_disable_manual_job"))
    } else {
        Ok(())
    }
}

/// A job runs on demand only when enabled and not already running.
pub fn check_run_one(enable: i32, running: i64, i18n: &I18n) -> (r: Result<(), String>)
    ensures
        enable != 1 ==> (r matches Err(m) && m@ == translated(i18n@, "disabled_job_cannot_run"@)),
        enable == 1 && running > 0 ==> (r matches Err(m) && m@ == translated(i18n@, "job_running"@)),
        enable == 1 && running <= 0 ==> r is Ok,
{
    if enable != 1 {
        Err(t(i18n, "disabled_job_cannot_run"))
    } else if running > 0 {
        Err(t(i18n, "job_running"))
    } else {
        Ok(())
    }
}

/// The enabled jobs with no running task, in order.
pub open spec fn idle_jobs(ids: Seq<i64>, running: Seq<i64>) -> Seq<i64>
    decreases ids.len(),
{
    if ids.len() == 0 || running.len() != ids.len() {
        Seq::<i64>::empty()
    } else {
        let rest = idle_jobs(ids.drop_last(), running.drop_last());
        if running.last() == 0 {
            rest.push(ids.last())
        } else {
            rest
        }
    }
}

/// Picks the jobs to run from the enabled ones and their running-task
/// counts; fails when there is nothing to run.
pub fn eligible_jobs(job_ids: &Vec<i64>, running: &Vec<i64>, i18n: &I18n) -> (r: Result<
    Vec<i64>,
    String,
>)
    requires
        job_ids@.len() == running@.len(),
    ensures
        match r {
            Ok(v) => v@ == idle_jobs(job_ids@, running@) && v@.len() > 0,
            Err(m) => idle_jobs(job_ids@, running@).len() == 0 && m@ == translated(
                i18n@,
                "no_job_for_run"@,
            ),
        },
{
    let mut out: Vec<i64> = Vec::new();
    let mut i: usize = 0;
    while i < job_ids.len()
        invariant
            i <= job_ids@.len() == running@.len(),
            out@ == idle_jobs(job_ids@.subrange(0, i as int), running@.subrange(0, i as int)),
        decreases job_ids@.len() - i,
    {
        assert(job_ids@.subrange(0, i + 1).drop_last() =~= job_ids@.subrange(0, i as int));
        assert(running@.subrange(0, i + 1).drop_last() =~= running@.subrange(0, i as int));
        if running[i] == 0 {
            out.push(job_ids[i]);
        }
        i = i + 1;
    }
    assert(job_ids@.subrange(0, job_ids@.len() as int) =~= job_ids@);
    assert(running@.subrange(0, running@.len() as int) =~= running@);
    if out.len() == 0 {
        Err(t(i18n, "no_job_for_run"))
    } else {
        Ok(out)
    }
}

// ==================== listing ====================

/// What a job listing request asks for.
#[derive(Debug, Clone, Copy, PartialEq, Eq, Structural)]
pub enum JobQuery {
    /// The current (or latest with the given status) task of a job.
    Current { job_id: i64, status: Option<i32> },
    /// A page of the items of a task.
    TaskItems { task_id: i64, page_num: i32, page_size: i32 },
    /// A page of the tasks of a job.
    Tasks { job_id: i64, page_num: i32, page_size: i32 },
    /// A page of jobs.
    Jobs { page_num: i32, page_size: i32 },
}

pub open spec fn parsed_i64(o: Option<Seq<char>>) -> Option<i64> {
    match o {
        Some(s) => match parse_signed(s, i64::MIN as int, i64::MAX as int) {
            Some(v) => Some(v as i64),
            None => None,
        },
        None => None,
    }
}

pub open spec fn parsed_i32(o: Option<Seq<char>>) -> Option<i32> {
    match o {
        Some(s) => match parse_signed(s, i32::MIN as int, i32::MAX as int) {
            Some(v) => Some(v as i32),
            None => None,
        },
        None => None,
    }
}

fn parse_opt_i64(o: Option<&str>) -> (r: Option<i64>)
    ensures
        r == parsed_i64(
            match o {
                Some(s) => Some(s@),
                None => None,
            },
        ),
{
    match o {
        Some(s) => parse_i64(&chars_of(s)),
        None => None,
    }
}

fn parse_opt_i32(o: Option<&str>) -> (r: Option<i32>)
    ensures
        r == parsed_i32(
            match o {
                Some(s) => Some(s@),
                None => None,
            },
        ),
{
    match o {
        Some(s) => parse_i32(&chars_of(s)),
        None => None,
    }
}

pub open spec fn opt_view(o: Option<&str>) -> Option<Seq<char>> {
    match o {
        Some(s) => Some(s@),
        None => None,
    }
}

pub open spec fn or_default<T>(o: Option<T>, d: T) -> T {
    match o {
        Some(v) => v,
        None => d,
    }
}

/// Classifies a job listing request from its query parameters: `current=1`
/// asks for the running task, then `taskId` for task items, then `id` for
/// the tasks of a job, otherwise the job list. Unparsable ids read as 0,
/// page numbers default to 1 and page sizes to 10.
pub fn classify_job_get(
    current: Option<&str>,
    id: Option<&str>,
    status: Option<&str>,
    task_id: Option<&str>,
    page_num: Option<&str>,
    page_size: Option<&str>,
) -> (r: JobQuery)
    ensures
        r == (if opt_view(current) == Some("1"@) {
            JobQuery::Current {
                job_id: or_default(parsed_i64(opt_view(id)), 0),
                status: parsed_i32(opt_view(status)),
            }
        } else if task_id is Some {
            JobQuery::TaskItems {
                task_id: or_default(parsed_i64(opt_view(task_id)), 0),
                page_num: or_default(parsed_i32(opt_view(page_num)), 1),
                page_size: or_default(parsed_i32(opt_view(page_size)), 10),
            }
        } else if id is Some {
            JobQuery::Tasks {
                job_id: or_default(parsed_i64(opt_view(id)), 0),
                page_num: or_default(parsed_i32(opt_view(page_num)), 1),
                page_size: or_default(parsed_i32(opt_view(page_size)), 10),
            }
        } else {
            JobQuery::Jobs {
                page_num: or_default(parsed_i32(opt_view(page_num)), 1),
                page_size: or_default(parsed_i32(opt_view(page_size)), 10),
            }
        }),
{
    let is_current = match current {
        Some(c) => crate::files::str_eq(c, "1"),
        None => false,
    };
    let pn = match parse_opt_i32(page_num) {
        Some(v) => v,
        None => 1,
    };
    let ps = match parse_opt_i32(page_size) {
        Some(v) => v,
        None => 10,
    };
    if is_current {
        let jid = match parse_opt_i64(id) {
            Some(v) => v,
            None => 0,
        };
        JobQuery::Current { job_id: jid, status: parse_opt_i32(status) }
    } else if task_id.is_some() {
        let tid = match parse_opt_i64(task_id) {
            Some(v) => v,
            None => 0,
        };
        JobQuery::TaskItems { task_id: tid, page_num: pn, page_size: ps }
    } else if id.is_some() {
        let jid = match parse_opt_i64(id) {
            Some(v) => v,
            None => 0,
        };
        JobQuery::Tasks { job_id: jid, page_num: pn, page_size: ps }
    } else {
        JobQuery::Jobs { page_num: pn, page_size: ps }
    }
}

/// The row offset of a page: `(page_num - 1) * page_size`.
pub fn page_offset(page_num: i32, page_size: i32) -> (r: i32)
    requires
        page_num > i32::MIN,
        i32::MIN <= (page_num - 1) * page_size <= i32::MAX,
    ensures
        r == (page_num - 1) * page_size,
{
    (page_num - 1) * page_size
}

/// How long a task has been running: now minus its start, never negative;
/// 0 when it has no start time.
pub fn task_duration(now: i64, run_time: Option<i64>) -> (r: i64)
    requires
        run_time matches Some(t) ==> i64::MIN <= now - t <= i64::MAX,
    ensures
        r == (match run_time {
            Some(t) => if now - t > 0 {
                now - t
            } else {
                0
            },
            None => 0,
        }),
{
    match run_time {
        Some(t) => {
            let d = now - t;
            if d > 0 {
                d
            } else {
                0
            }
        },
        None => 0,
    }
}

} // verus!
