use vstd::prelude::*;
use crate::text::{find_from, first_at, lemma_first_at, same_text};

verus! {

/// The part of `s` after its last `/` (all of `s` when it has none).
pub open spec fn last_segment(s: Seq<char>) -> Seq<char>
    decreases s.len(),
{
    if s.len() == 0 {
        s
    } else if s.last() == '/' {
        Seq::empty()
    } else {
        last_segment(s.drop_last()).push(s.last())
    }
}

/// The archive name used when a download URL names no file: a gzipped tar
/// on `darwin` and `linux`, a zip elsewhere.
pub open spec fn fallback_archive_name(target: Seq<char>) -> Seq<char> {
    if target == "darwin"@ || target == "linux"@ {
        "update.tar.gz"@
    } else {
        "update.zip"@
    }
}

/// The path part of a URL: from the first `/` after the host, empty when the
/// URL has none; a text without `://` is a path as a whole.
pub open spec fn url_path(url: Seq<char>) -> Seq<char> {
    let sep = first_at(url, "://"@, 0);
    if sep < 0 {
        url
    } else {
        let slash = first_at(url, "/"@, sep + 3);
        if slash < 0 {
            Seq::empty()
        } else {
            url.subrange(slash, url.len() as int)
        }
    }
}

/// `s` without its trailing `/` characters.
pub open spec fn trim_trailing_slashes(s: Seq<char>) -> Seq<char>
    decreases s.len(),
{
    if s.len() > 0 && s.last() == '/' {
        trim_trailing_slashes(s.drop_last())
    } else {
        s
    }
}

/// The file name under which the archive at `url` is saved: the last
/// non-empty segment of the URL's path, or the platform's fallback name when
/// the path has none.
pub open spec fn archive_file_name(url: Seq<char>, target: Seq<char>) -> Seq<char> {
    let seg = last_segment(trim_trailing_slashes(url_path(url)));
    if seg.len() == 0 {
        fallback_archive_name(target)
    } else {
        seg
    }
}

/// The path part of a URL.
pub fn path_of_url(url: &str) -> (r: String)
    ensures
        r@ == url_path(url@),
{
    proof {
        reveal_strlit("://");
    }
    match find_from(url, "://", 0) {
        None => url.to_owned(),
        Some(sep) => {
            let n = url.unicode_len();
            proof {
                lemma_first_at(url@, "://"@, 0);
                reveal_strlit("/");
            }
            match find_from(url, "/", sep + 3) {
                None => String::new(),
                Some(slash) => {
                    proof {
                        lemma_first_at(url@, "/"@, sep + 3);
                    }
                    url.substring_char(slash, n).to_owned()
                },
            }
        },
    }
}

/// A text without its trailing `/` characters.
pub fn strip_trailing_slashes(s: &str) -> (r: String)
    ensures
        r@ == trim_trailing_slashes(s@),
{
    let n = s.unicode_len();
    let mut e: usize = n;
    proof {
        assert(s@.subrange(0, n as int) =~= s@);
    }
    while e > 0 && s.get_char(e - 1) == '/'
        invariant
            n == s@.len(),
            e <= n,
            trim_trailing_slashes(s@) == trim_trailing_slashes(s@.subrange(0, e as int)),
        decreases e,
    {
        proof {
            assert(s@.subrange(0, e as int).drop_last() =~= s@.subrange(0, e - 1));
        }
        e = e - 1;
    }
    s.substring_char(0, e).to_owned()
}

/// Archive name by platform, used where the URL does not name a file.
pub fn archive_name_by_os(target: &str) -> (r: String)
    ensures
        r@ == fallback_archive_name(target@),
{
    if same_text(target, "darwin") || same_text(target, "linux") {
        "update.tar.gz".to_owned()
    } else {
        "update.zip".to_owned()
    }
}

/// The last path segment of a URL.
pub fn url_last_segment(url: &str) -> (r: String)
    ensures
        r@ == last_segment(url@),
{
    let n = url.unicode_len();
    let mut j: usize = n;
    proof {
        assert(url@.subrange(0, n as int) =~= url@);
        assert(url@.subrange(n as int, n as int) =~= Seq::<char>::empty());
    }
    while j > 0 && url.get_char(j - 1) != '/'
        invariant
            n == url@.len(),
            j <= n,
            last_segment(url@) == last_segment(url@.subrange(0, j as int)) + url@.subrange(
                j as int,
                n as int,
            ),
        decreases j,
    {
        proof {
            let pre = url@.subrange(0, j as int);
            assert(pre.drop_last() =~= url@.subrange(0, j - 1));
            assert(last_segment(pre) == last_segment(pre.drop_last()).push(pre.last()));
            assert(last_segment(pre.drop_last()).push(pre.last()) + url@.subrange(j as int, n as int)
                =~= last_segment(pre.drop_last()) + url@.subrange(j - 1, n as int));
        }
        j = j - 1;
    }
    proof {
        let pre = url@.subrange(0, j as int);
        if j == 0 {
            assert(pre =~= Seq::<char>::empty());
        }
        assert(last_segment(pre) =~= Seq::<char>::empty());
        assert(last_segment(url@) =~= url@.subrange(j as int, n as int));
    }
    url.substring_char(j, n).to_owned()
}

/// The file name for the archive downloaded from `path` for `target`.
pub fn detect_archive_in_url(path: &str, target: &str) -> (r: String)
    ensures
        r@ == archive_file_name(path@, target@),
{
    let url_path = path_of_url(path);
    let trimmed = strip_trailing_slashes(url_path.as_str());
    let seg = url_last_segment(trimmed.as_str());
    if seg.as_str().unicode_len() == 0 {
        archive_name_by_os(target)
    } else {
        seg
    }
}

/// Percentage of a transfer of `total` bytes done after `downloaded`; 0 while
/// the total is unknown.
pub open spec fn percent_of(downloaded: int, total: int) -> int {
    if total <= 0 {
        0
    } else {
        downloaded * 100 / total
    }
}

/// Bytes counted after the chunks `chunks`, each count capped at `total`.
pub open spec fn downloaded_after(total: int, chunks: Seq<u64>) -> int
    decreases chunks.len(),
{
    if chunks.len() == 0 {
        0
    } else {
        let d = downloaded_after(total, chunks.drop_last()) + chunks.last();
        if d < total {
            d
        } else {
            total
        }
    }
}

/// Progress of an archive transfer whose announced size is `total`
/// (0 when the size is unknown).
pub struct DownloadProgress {
    pub total: u64,
    pub downloaded: u64,
}

impl DownloadProgress {
    pub open spec fn wf(&self) -> bool {
        self.downloaded <= self.total
    }

    /// A transfer that has not started.
    pub fn new(total: u64) -> (r: DownloadProgress)
        ensures
            r.total == total,
            r.downloaded == 0,
            r.wf(),
    {
        DownloadProgress { total, downloaded: 0 }
    }

    /// Counts a chunk of `n` bytes and returns the percentage now done.
    pub fn advance(&mut self, n: u64) -> (p: u64)
        requires
            old(self).wf(),
        ensures
            final(self).wf(),
            final(self).total == old(self).total,
            final(self).downloaded == (if old(self).downloaded + n < old(self).total {
                old(self).downloaded + n
            } else {
                old(self).total as int
            }),
            p == percent_of(final(self).downloaded as int, final(self).total as int),
            p <= 100,
    {
        let room = self.total - self.downloaded;
        if n < room {
            self.downloaded = self.downloaded + n;
        } else {
            self.downloaded = self.total;
        }
        self.percent()
    }

    /// Percentage of the transfer done.
    pub fn percent(&self) -> (p: u64)
        requires
            self.wf(),
        ensures
            p == percent_of(self.downloaded as int, self.total as int),
            p <= 100,
    {
        if self.total == 0 {
            0
        } else {
            let d = self.downloaded as u128;
            let t = self.total as u128;
            proof {
                lemma_percent_bounds(d as int, t as int);
            }
            ((d * 100) / t) as u64
        }
    }
}

proof fn lemma_percent_bounds(d: int, t: int)
    requires
        0 <= d <= t,
        0 < t,
    ensures
        0 <= d * 100 / t <= 100,
        d * 100 <= t * 100,
{
    assert(d * 100 <= t * 100) by (nonlinear_arith)
        requires
            d <= t,
    ;
    vstd::arithmetic::div_mod::lemma_div_is_ordered(d * 100, t * 100, t);
    vstd::arithmetic::div_mod::lemma_div_multiples_vanish(100, t);
    vstd::arithmetic::div_mod::lemma_div_pos_is_pos(d * 100, t);
}

/// Progress percentages never decrease as bytes arrive, stay within 0..=100,
/// and reach 100 once the announced size has arrived; an unknown size yields 0
/// and never a division by zero.
pub proof fn lemma_progress_monotone(d1: int, d2: int, total: int)
    requires
        0 <= d1 <= d2 <= total,
    ensures
        0 <= percent_of(d1, total) <= percent_of(d2, total) <= 100,
        total > 0 ==> percent_of(total, total) == 100,
        total == 0 ==> percent_of(d2, total) == 0,
{
    if total > 0 {
        lemma_percent_bounds(d1, total);
        lemma_percent_bounds(d2, total);
        assert(d1 * 100 <= d2 * 100) by (nonlinear_arith)
            requires
                d1 <= d2,
        ;
        vstd::arithmetic::div_mod::lemma_div_is_ordered(d1 * 100, d2 * 100, total);
        vstd::arithmetic::div_mod::lemma_div_multiples_vanish(100, total);
    }
}

proof fn lemma_downloaded_prefix(total: int, chunks: Seq<u64>, i: int)
    requires
        total >= 0,
        0 <= i <= chunks.len(),
    ensures
        0 <= downloaded_after(total, chunks.subrange(0, i)) <= downloaded_after(total, chunks)
            <= total,
    decreases chunks.len(),
{
    if chunks.len() > 0 {
        if i == chunks.len() {
            assert(chunks.subrange(0, i) =~= chunks);
            lemma_downloaded_prefix(total, chunks.drop_last(), 0);
        } else {
            assert(chunks.drop_last().subrange(0, i) =~= chunks.subrange(0, i));
            lemma_downloaded_prefix(total, chunks.drop_last(), i);
        }
    } else {
        assert(chunks.subrange(0, i) =~= chunks);
    }
}

proof fn lemma_downloaded_reaches(total: int, chunks: Seq<u64>, sum: int)
    requires
        total >= 0,
        sum == chunks.fold_left(0int, |acc: int, c: u64| acc + c),
    ensures
        downloaded_after(total, chunks) == (if sum < total {
            sum
        } else {
            total
        }),
    decreases chunks.len(),
{
    if chunks.len() > 0 {
        let rest = chunks.drop_last();
        let s2 = rest.fold_left(0int, |acc: int, c: u64| acc + c);
        chunks.lemma_fold_left_split(0int, |acc: int, c: u64| acc + c, chunks.len() - 1);
        assert(chunks.subrange(0, chunks.len() - 1) =~= rest);
        assert(chunks.subrange(chunks.len() - 1, chunks.len() as int) =~= seq![chunks.last()]);
        assert(seq![chunks.last()].drop_last() =~= Seq::<u64>::empty());
        lemma_downloaded_reaches(total, rest, s2);
    }
}

/// Over a whole transfer, the percentage after each chunk is at least the one
/// before, and once the chunks add up to the announced size the last one is 100.
pub proof fn lemma_download_events(total: u64, chunks: Seq<u64>, i: int, j: int)
    requires
        0 <= i <= j <= chunks.len(),
    ensures
        percent_of(downloaded_after(total as int, chunks.subrange(0, i)), total as int)
            <= percent_of(downloaded_after(total as int, chunks.subrange(0, j)), total as int),
        percent_of(downloaded_after(total as int, chunks), total as int) <= 100,
        total > 0 && chunks.fold_left(0int, |acc: int, c: u64| acc + c) == total ==> percent_of(
            downloaded_after(total as int, chunks),
            total as int,
        ) == 100,
{
    let cj = chunks.subrange(0, j);
    assert(cj.subrange(0, i) =~= chunks.subrange(0, i));
    lemma_downloaded_prefix(total as int, cj, i);
    lemma_downloaded_prefix(total as int, chunks, 0);
    lemma_progress_monotone(
        downloaded_after(total as int, chunks.subrange(0, i)),
        downloaded_after(total as int, cj),
        total as int,
    );
    lemma_progress_monotone(
        downloaded_after(total as int, chunks),
        downloaded_after(total as int, chunks),
        total as int,
    );
    lemma_downloaded_reaches(
        total as int,
        chunks,
        chunks.fold_left(0int, |acc: int, c: u64| acc + c),
    );
}

} // verus!
