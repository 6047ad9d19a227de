use vstd::prelude::*;
use crate::error::{error_text, ADBError, ADBResult};
use crate::text::string_views;

verus! {

/// The command that removes a remote temporary file.
pub open spec fn removal_command_spec(path: Seq<char>) -> Seq<char> {
    "rm -f "@ + path
}

/// Whether `out` is an outcome that `exec` may give when asked to run
/// `command` on `device`.
pub open spec fn executed<E: Fn(&str, &str) -> ADBResult<String>>(
    exec: E,
    device: Seq<char>,
    command: Seq<char>,
    out: ADBResult<String>,
) -> bool {
    exists|d: &str, c: &str| d@ == device && c@ == command && #[trigger] exec.ensures((d, c), out)
}

/// Whether `outs` are outcomes of asking `exec` to remove each of `paths`
/// from `device`, one outcome per path, in order.
pub open spec fn removals_attempted<E: Fn(&str, &str) -> ADBResult<String>>(
    exec: E,
    device: Seq<char>,
    paths: Seq<Seq<char>>,
    outs: Seq<ADBResult<String>>,
) -> bool {
    &&& outs.len() == paths.len()
    &&& forall|i: int|
        0 <= i < outs.len() ==> executed(
            exec,
            device,
            removal_command_spec(paths[i]),
            #[trigger] outs[i],
        )
}

/// The tracked paths whose removal failed, each with the text of its error:
/// `file <path>: <error>`.
pub open spec fn failure_entries(paths: Seq<Seq<char>>, outs: Seq<ADBResult<String>>) -> Seq<Seq<char>>
    decreases paths.len(),
{
    if paths.len() == 0 || outs.len() != paths.len() {
        Seq::empty()
    } else {
        let rest = failure_entries(paths.drop_last(), outs.drop_last());
        match outs.last() {
            Ok(_) => rest,
            Err(e) => rest.push("file "@ + paths.last() + ": "@ + error_text(e)),
        }
    }
}

/// The tracked paths whose removal failed, in tracking order.
pub open spec fn failed_paths(paths: Seq<Seq<char>>, outs: Seq<ADBResult<String>>) -> Seq<Seq<char>>
    decreases paths.len(),
{
    if paths.len() == 0 || outs.len() != paths.len() {
        Seq::empty()
    } else {
        let rest = failed_paths(paths.drop_last(), outs.drop_last());
        match outs.last() {
            Ok(_) => rest,
            Err(_) => rest.push(paths.last()),
        }
    }
}

/// `parts` joined with `sep` between neighbours.
pub open spec fn join(parts: Seq<Seq<char>>, sep: Seq<char>) -> Seq<char>
    decreases parts.len(),
{
    if parts.len() == 0 {
        Seq::empty()
    } else if parts.len() == 1 {
        parts[0]
    } else {
        join(parts.drop_last(), sep) + sep + parts.last()
    }
}

/// The report of a cleanup whose removals gave `outs`: success when every
/// removal succeeded, else one file error that lists every failed path with
/// its cause.
pub open spec fn cleanup_report(
    paths: Seq<Seq<char>>,
    outs: Seq<ADBResult<String>>,
    r: ADBResult<()>,
) -> bool {
    if failure_entries(paths, outs).len() == 0 {
        r is Ok
    } else {
        r is Err && r->Err_0 is FileError && r->Err_0->FileError_0@
            == "failed to remove temporary files: "@ + join(failure_entries(paths, outs), ", "@)
    }
}

/// The command that removes the remote file `path`.
pub fn removal_command(path: &str) -> (r: String)
    ensures
        r@ == removal_command_spec(path@),
{
    String::from_str("rm -f ").concat(path)
}

/// `parts` joined with `sep` between neighbours.
pub fn join_with(parts: &Vec<String>, sep: &str) -> (r: String)
    ensures
        r@ == join(string_views(parts@), sep@),
{
    let mut out = String::new();
    let mut i: usize = 0;
    while i < parts.len()
        invariant
            i <= parts.len(),
            out@ == join(string_views(parts@).subrange(0, i as int), sep@),
        decreases parts.len() - i,
    {
        let ghost prev = string_views(parts@).subrange(0, i as int);
        let ghost next = string_views(parts@).subrange(0, i + 1);
        assert(next.drop_last() =~= prev);
        if i > 0 {
            out.append(sep);
        }
        out.append(parts[i].as_str());
        i = i + 1;
        proof {
            if i == 1 {
                assert(out@ =~= join(next, sep@));
            }
        }
    }
    assert(string_views(parts@).subrange(0, i as int) =~= string_views(parts@));
    out
}

/// Tracks the temporary files that an operation creates on one device, so
/// that they can all be removed when the operation ends, whether it
/// succeeded or not.
pub struct ResourceManager {
    device_id: String,
    temp_files: Vec<String>,
    start_ms: u64,
}

impl ResourceManager {
    /// The device that the tracked files live on.
    pub closed spec fn device(&self) -> Seq<char> {
        self.device_id@
    }

    /// The tracked paths, in the order they were tracked.
    pub closed spec fn pending(&self) -> Seq<Seq<char>> {
        string_views(self.temp_files@)
    }

    /// When the scope began, in milliseconds.
    pub closed spec fn started_at(&self) -> u64 {
        self.start_ms
    }

    /// A scope on `device_id` that tracks nothing yet, begun at `start_ms`.
    pub fn new(device_id: &str, start_ms: u64) -> (r: ResourceManager)
        ensures
            r.device() == device_id@,
            r.pending() == Seq::<Seq<char>>::empty(),
            r.started_at() == start_ms,
    {
        let r = ResourceManager { device_id: device_id.to_owned(), temp_files: Vec::new(), start_ms };
        assert(r.pending() =~= Seq::<Seq<char>>::empty());
        r
    }

    /// The device that the tracked files live on.
    pub fn device_id(&self) -> (r: &str)
        ensures
            r@ == self.device(),
    {
        self.device_id.as_str()
    }

    /// The tracked paths, in the order they were tracked.
    pub fn temp_files(&self) -> (r: &Vec<String>)
        ensures
            string_views(r@) == self.pending(),
    {
        &self.temp_files
    }

    /// Adds `path` to the files to remove.
    pub fn track_temp_file(&mut self, path: &str)
        ensures
            final(self).pending() == old(self).pending().push(path@),
            final(self).device() == old(self).device(),
            final(self).started_at() == old(self).started_at(),
    {
        self.temp_files.push(path.to_owned());
        assert(string_views(self.temp_files@) =~= string_views(old(self).temp_files@).push(path@));
    }

    /// Attempts to remove every tracked file through `exec`, which runs a
    /// command on a device. A failed removal does not stop the others. The
    /// list of tracked files is empty afterwards, so a second cleanup does
    /// nothing. The result lists every failed path with its cause.
    pub fn cleanup<E>(&mut self, exec: &E) -> (r: ADBResult<()>)
        where
            E: Fn(&str, &str) -> ADBResult<String>,
        requires
            forall|d: &str, c: &str| exec.requires((d, c)),
        ensures
            final(self).pending() == Seq::<Seq<char>>::empty(),
            final(self).device() == old(self).device(),
            final(self).started_at() == old(self).started_at(),
            exists|outs: Seq<ADBResult<String>>|
                #[trigger] removals_attempted(*exec, old(self).device(), old(self).pending(), outs)
                    && cleanup_report(old(self).pending(), outs, r),
    {
        let ghost paths = self.pending();
        let ghost mut outs: Seq<ADBResult<String>> = Seq::empty();
        let mut entries: Vec<String> = Vec::new();
        let mut i: usize = 0;
        while i < self.temp_files.len()
            invariant
                self.pending() == paths,
                self.device() == old(self).device(),
                paths == old(self).pending(),
                i <= self.temp_files.len(),
                outs.len() == i,
                forall|d: &str, c: &str| exec.requires((d, c)),
                forall|j: int|
                    0 <= j < i ==> executed(
                        *exec,
                        self.device(),
                        removal_command_spec(paths[j]),
                        #[trigger] outs[j],
                    ),
                string_views(entries@) == failure_entries(paths.subrange(0, i as int), outs),
            decreases self.temp_files.len() - i,
        {
            let path = self.temp_files[i].as_str();
            assert(path@ == paths[i as int]);
            let command = removal_command(path);
            let out = exec(self.device_id.as_str(), command.as_str());
            let ghost prev_outs = outs;
            let ghost prev_entries = entries@;
            match &out {
                Ok(_) => {},
                Err(e) => {
                    let mut entry = String::from_str("file ");
                    entry.append(path);
                    entry.append(": ");
                    let text = e.to_string();
                    entry.append(text.as_str());
                    entries.push(entry);
                },
            }
            proof {
                outs = outs.push(out);
                let next = paths.subrange(0, i + 1);
                assert(next.drop_last() =~= paths.subrange(0, i as int));
                assert(outs.drop_last() =~= prev_outs);
                assert(string_views(entries@) =~= failure_entries(next, outs));
                assert(executed(*exec, self.device(), removal_command_spec(paths[i as int]), outs[i as int]));
            }
            i = i + 1;
        }
        assert(paths.subrange(0, i as int) =~= paths);
        self.temp_files = Vec::new();
        assert(self.pending() =~= Seq::<Seq<char>>::empty());
        assert(string_views(entries@).len() == entries.len());
        let r = if entries.len() == 0 {
            Ok(())
        } else {
            let mut message = String::from_str("failed to remove temporary files: ");
            let joined = join_with(&entries, ", ");
            message.append(joined.as_str());
            Err(ADBError::FileError(message))
        };
        assert(cleanup_report(paths, outs, r));
        assert(removals_attempted(*exec, old(self).device(), old(self).pending(), outs));
        assert(forall|j: int|
            0 <= j < outs.len() ==> executed(
                *exec,
                old(self).device(),
                removal_command_spec(old(self).pending()[j]),
                #[trigger] outs[j],
            ));
        r
    }

    /// The milliseconds since the scope began, given the time now; zero if
    /// `now_ms` lies before the start.
    pub fn elapsed(&self, now_ms: u64) -> (r: u64)
        ensures
            r == (if now_ms >= self.started_at() {
                now_ms - self.started_at()
            } else {
                0
            }),
    {
        if now_ms >= self.start_ms {
            now_ms - self.start_ms
        } else {
            0
        }
    }
}

/// Runs `f` in a fresh scope on `device_id` and then attempts to remove
/// every file that `f` tracked, through `exec`, whether `f` succeeded or
/// not. The result is that of `f`, unchanged; failures of the cleanup do not
/// mask it.
pub fn with_resources<T, F, E>(device_id: &str, start_ms: u64, f: F, exec: &E) -> (r: ADBResult<T>)
    where
        F: FnOnce(&mut ResourceManager) -> ADBResult<T>,
        E: Fn(&str, &str) -> ADBResult<String>,
    requires
        forall|m: &mut ResourceManager| f.requires((m,)),
        forall|d: &str, c: &str| exec.requires((d, c)),
    ensures
        exists|m: &mut ResourceManager|
            {
                &&& f.ensures((m,), r)
                &&& m.device() == device_id@
                &&& m.pending() == Seq::<Seq<char>>::empty()
                &&& exists|outs: Seq<ADBResult<String>>|
                    #[trigger] removals_attempted(
                        *exec,
                        final(m).device(),
                        final(m).pending(),
                        outs,
                    )
            },
{
    let mut manager = ResourceManager::new(device_id, start_ms);
    let result = f(&mut manager);
    let _ = manager.cleanup(exec);
    result
}

/// A cleanup report names exactly the failed removals: one entry per failed
/// path, in order, each giving the path and the cause, and every path whose
/// removal failed is among them.
pub proof fn law_report_lists_failed_paths(paths: Seq<Seq<char>>, outs: Seq<ADBResult<String>>)
    requires
        outs.len() == paths.len(),
    ensures
        failure_entries(paths, outs).len() == failed_paths(paths, outs).len(),
        forall|k: int|
            0 <= k < failed_paths(paths, outs).len() ==> exists|i: int|
                0 <= i < paths.len() && outs[i] is Err && #[trigger] failed_paths(paths, outs)[k]
                    == paths[i] && failure_entries(paths, outs)[k] == "file "@ + paths[i] + ": "@
                    + error_text(outs[i]->Err_0),
        forall|i: int|
            0 <= i < paths.len() && outs[i] is Err ==> failed_paths(paths, outs).contains(
                #[trigger] paths[i],
            ),
    decreases paths.len(),
{
    if paths.len() > 0 {
        let pr = paths.drop_last();
        let or = outs.drop_last();
        law_report_lists_failed_paths(pr, or);
        let n = paths.len() - 1;
        let fp = failed_paths(paths, outs);
        let fe = failure_entries(paths, outs);
        assert forall|k: int| 0 <= k < fp.len() implies exists|i: int|
            0 <= i < paths.len() && outs[i] is Err && #[trigger] fp[k] == paths[i] && fe[k] == "file "@
                + paths[i] + ": "@ + error_text(outs[i]->Err_0) by {
            if k < failed_paths(pr, or).len() {
                let i = choose|i: int|
                    0 <= i < pr.len() && or[i] is Err && #[trigger] failed_paths(pr, or)[k] == pr[i]
                        && failure_entries(pr, or)[k] == "file "@ + pr[i] + ": "@ + error_text(
                        or[i]->Err_0,
                    );
                assert(paths[i] == pr[i] && outs[i] == or[i]);
            } else {
                assert(paths[n] == paths.last());
            }
        }
        assert forall|i: int| 0 <= i < paths.len() && outs[i] is Err implies fp.contains(
            #[trigger] paths[i],
        ) by {
            if i < n {
                assert(pr[i] == paths[i] && or[i] == outs[i]);
                let k = choose|k: int| 0 <= k < failed_paths(pr, or).len() && failed_paths(pr, or)[k] == pr[i];
                assert(fp[k] == paths[i]);
            } else {
                assert(fp[fp.len() - 1] == paths[i]);
            }
        }
    }
}

/// Cleaning up a scope that tracks nothing, as every scope does after its
/// first cleanup, attempts no removal and succeeds.
pub proof fn law_second_cleanup_is_noop<E: Fn(&str, &str) -> ADBResult<String>>(
    exec: E,
    device: Seq<char>,
    outs: Seq<ADBResult<String>>,
    r: ADBResult<()>,
)
    requires
        removals_attempted(exec, device, Seq::empty(), outs),
        cleanup_report(Seq::empty(), outs, r),
    ensures
        outs.len() == 0,
        r is Ok,
{
}

} // verus!
