//! Control surface logic: the command-channel key, extraction of the
//! recording id from a status-channel key, and dispatch of a decoded
//! command request to the manager. Receiving and answering queries on the
//! middleware happens outside the library; it hands decoded requests in
//! and carries encoded responses out.

use vstd::prelude::*;
use vstd::string::StrSliceExecFns;
use vstd::string::StringExecFns;

use crate::protocol::{RecorderCommand, RecorderRequest, RecorderResponse, RecordingStatus};
use crate::recorder::{lemma_session_index_props, spec_session_index, transition, RecorderManager};

verus! {

/// Index of the first occurrence of `x` in `s`, or `-1` when absent.
pub open spec fn find_char(s: Seq<char>, x: char) -> int
    decreases s.len(),
{
    if s.len() == 0 {
        -1
    } else if s[0] == x {
        0
    } else {
        let r = find_char(s.drop_first(), x);
        if r < 0 {
            -1
        } else {
            r + 1
        }
    }
}

/// What `find_char` returns: the least index holding `x`, or `-1`.
pub proof fn lemma_find_char(s: Seq<char>, x: char)
    ensures
        find_char(s, x) == -1 ==> forall|i: int| 0 <= i < s.len() ==> s[i] != x,
        find_char(s, x) >= 0 ==> 0 <= find_char(s, x) < s.len() && s[find_char(s, x)] == x
            && forall|i: int| 0 <= i < find_char(s, x) ==> s[i] != x,
    decreases s.len(),
{
    if s.len() == 0 {
    } else if s[0] == x {
    } else {
        lemma_find_char(s.drop_first(), x);
        let r = find_char(s.drop_first(), x);
        if r < 0 {
            assert forall|i: int| 0 <= i < s.len() implies s[i] != x by {
                if i > 0 {
                    assert(s.drop_first()[i - 1] == s[i]);
                }
            }
        } else {
            assert(s[r + 1] == s.drop_first()[r]);
            assert forall|i: int| 0 <= i < r + 1 implies s[i] != x by {
                if i > 0 {
                    assert(s.drop_first()[i - 1] == s[i]);
                }
            }
        }
    }
}

/// `find_char` finds exactly the position that is first to hold `x`.
pub proof fn lemma_find_char_at(s: Seq<char>, x: char, i: int)
    requires
        0 <= i < s.len(),
        s[i] == x,
        forall|j: int| 0 <= j < i ==> s[j] != x,
    ensures
        find_char(s, x) == i,
{
    lemma_find_char(s, x);
}

/// Scans from `from` for the next separator.
fn find_slash_from(key: &str, from: usize) -> (r: Option<usize>)
    requires
        from <= key@.len(),
    ensures
        match r {
            Some(i) => from <= i < key@.len() && find_char(key@.skip(from as int), '/') == i
                - from,
            None => find_char(key@.skip(from as int), '/') == -1,
        },
{
    let n = key.unicode_len();
    let mut i: usize = from;
    while i < n
        invariant
            from <= i <= n,
            n == key@.len(),
            forall|j: int| from <= j < i ==> key@[j] != '/',
        decreases n - i,
    {
        if key.get_char(i) == '/' {
            proof {
                let rest = key@.skip(from as int);
                assert(rest[i - from] == key@[i as int]);
                assert forall|j: int| 0 <= j < i - from implies rest[j] != '/' by {
                    assert(rest[j] == key@[j + from]);
                }
                lemma_find_char_at(rest, '/', i - from);
            }
            return Some(i);
        }
        i = i + 1;
    }
    proof {
        let rest = key@.skip(from as int);
        assert forall|j: int| 0 <= j < rest.len() implies rest[j] != '/' by {
            assert(rest[j] == key@[j + from]);
        }
        lemma_find_char(rest, '/');
    }
    None
}

/// The third `/`-separated segment of a key, where the recording id stands
/// on the status channel: `recorder/status/<recording_id>`. Keys with
/// fewer than three segments have none.
pub open spec fn spec_status_key_id(key: Seq<char>) -> Option<Seq<char>> {
    let i1 = find_char(key, '/');
    if i1 < 0 {
        None
    } else {
        let rest1 = key.skip(i1 + 1);
        let i2 = find_char(rest1, '/');
        if i2 < 0 {
            None
        } else {
            let rest2 = rest1.skip(i2 + 1);
            let i3 = find_char(rest2, '/');
            if i3 < 0 {
                Some(rest2)
            } else {
                Some(rest2.take(i3))
            }
        }
    }
}

/// Extracts the recording id from a status-channel key: its third
/// `/`-separated segment.
pub fn parse_status_key(key: &str) -> (r: Option<String>)
    ensures
        match spec_status_key_id(key@) {
            Some(id) => (r matches Some(v) && v@ == id),
            None => r is None,
        },
{
    let n = key.unicode_len();
    let i1 = match find_slash_from(key, 0) {
        Some(i) => i,
        None => {
            proof {
                assert(key@.skip(0) =~= key@);
            }
            return None;
        },
    };
    proof {
        assert(key@.skip(0) =~= key@);
    }
    let i2 = match find_slash_from(key, i1 + 1) {
        Some(i) => i,
        None => {
            proof {
                assert(key@.skip(i1 + 1) =~= key@.skip(i1 as int + 1));
            }
            return None;
        },
    };
    proof {
        let rest1 = key@.skip(i1 + 1);
        assert(rest1.skip(i2 - i1) =~= key@.skip(i2 + 1));
    }
    let seg_start = i2 + 1;
    let seg_end = match find_slash_from(key, seg_start) {
        Some(i) => i,
        None => n,
    };
    let ghost rest2 = key@.skip(seg_start as int);
    proof {
        if seg_end < n {
            assert(rest2.take(seg_end - seg_start) =~= key@.skip(seg_start as int).take(
                seg_end - seg_start,
            ));
        } else {
            assert(rest2 =~= key@.skip(seg_start as int));
        }
    }
    let seg = key.substring_char(seg_start, seg_end);
    proof {
        assert(seg@ =~= key@.subrange(seg_start as int, seg_end as int));
        if seg_end < n {
            assert(key@.subrange(seg_start as int, seg_end as int) =~= rest2.take(
                seg_end - seg_start,
            ));
        } else {
            assert(key@.subrange(seg_start as int, seg_end as int) =~= rest2);
        }
    }
    Some(String::from_str(seg))
}

/// The command-channel key for a device: `recorder/control/<device_id>`.
pub fn control_key_for(device_id: &str) -> (r: String)
    ensures
        r@ == "recorder/control/"@ + device_id@,
{
    let mut out = String::new();
    out.append("recorder/control/");
    out.append(device_id);
    out
}

/// Dispatches one decoded command request to the manager. Start installs
/// a session under the caller's id or the freshly generated one; the
/// other commands drive the session named by the request, with a missing
/// id read as the empty id. Failures leave the registry unchanged.
pub fn handle_request(
    manager: &mut RecorderManager,
    request: RecorderRequest,
    generated_id: String,
    now_secs: u64,
) -> (r: RecorderResponse)
    requires
        old(manager).wf(),
    ensures
        final(manager).wf(),
        ({
            let rid = match request.recording_id {
                Some(s) => s@,
                None => Seq::<char>::empty(),
            };
            let idx = spec_session_index(old(manager).sessions@, rid);
            match request.command {
                RecorderCommand::Start => ({
                    let sid = match request.recording_id {
                        Some(s) => s@,
                        None => generated_id@,
                    };
                    &&& r.success == (request.device_id@.len() > 0 && spec_session_index(
                        old(manager).sessions@,
                        sid,
                    ) < 0)
                    &&& r.success ==> final(manager).sessions@.len() == old(
                        manager,
                    ).sessions@.len() + 1 && final(manager).sessions@.last().recording_id@ == sid
                        && final(manager).sessions@.last().state == RecordingStatus::Recording
                        && (r.recording_id matches Some(v) && v@ == sid)
                    &&& !r.success ==> *final(manager) == *old(manager)
                }),
                RecorderCommand::Pause => ({
                    &&& r.success == (idx >= 0 && transition(
                        old(manager).sessions@[idx].state,
                        RecorderCommand::Pause,
                    ) is Some)
                    &&& r.success ==> final(manager).sessions@[idx].state
                        == RecordingStatus::Paused
                    &&& final(manager).sessions@.len() == old(manager).sessions@.len()
                    &&& !r.success ==> final(manager).sessions@ == old(manager).sessions@
                }),
                RecorderCommand::Resume => ({
                    &&& r.success == (idx >= 0 && transition(
                        old(manager).sessions@[idx].state,
                        RecorderCommand::Resume,
                    ) is Some)
                    &&& r.success ==> final(manager).sessions@[idx].state
                        == RecordingStatus::Recording
                    &&& final(manager).sessions@.len() == old(manager).sessions@.len()
                    &&& !r.success ==> final(manager).sessions@ == old(manager).sessions@
                }),
                RecorderCommand::Cancel => ({
                    &&& r.success == (idx >= 0 && transition(
                        old(manager).sessions@[idx].state,
                        RecorderCommand::Cancel,
                    ) is Some)
                    &&& r.success ==> final(manager).sessions@[idx].state
                        == RecordingStatus::Cancelled
                    &&& final(manager).sessions@.len() == old(manager).sessions@.len()
                    &&& final(manager).queue.tasks() == old(manager).queue.tasks()
                    &&& !r.success ==> final(manager).sessions@ == old(manager).sessions@
                }),
                RecorderCommand::Finish => ({
                    &&& r.success == (idx >= 0 && transition(
                        old(manager).sessions@[idx].state,
                        RecorderCommand::Finish,
                    ) is Some)
                    &&& r.success ==> final(manager).sessions@[idx].state
                        == RecordingStatus::Finished
                    &&& final(manager).sessions@.len() == old(manager).sessions@.len()
                    &&& !r.success ==> final(manager).sessions@ == old(manager).sessions@
                }),
            }
        }),
{
    match request.command {
        RecorderCommand::Start => manager.start_recording(request, generated_id, now_secs),
        RecorderCommand::Pause => {
            let id = match &request.recording_id {
                Some(s) => String::from_str(s.as_str()),
                None => String::new(),
            };
            proof {
                assert(id@ == (match request.recording_id {
                    Some(s) => s@,
                    None => Seq::<char>::empty(),
                }));
            }
            let resp = manager.pause_recording(id.as_str());
            proof {
                let rid = match request.recording_id {
                    Some(s) => s@,
                    None => Seq::<char>::empty(),
                };
                let idx = spec_session_index(old(manager).sessions@, rid);
                lemma_session_index_props(old(manager).sessions@, rid);
                if resp.success {
                    assert(idx >= 0);
                }
            }
            resp
        },
        RecorderCommand::Resume => {
            let id = match &request.recording_id {
                Some(s) => String::from_str(s.as_str()),
                None => String::new(),
            };
            proof {
                assert(id@ == (match request.recording_id {
                    Some(s) => s@,
                    None => Seq::<char>::empty(),
                }));
            }
            let resp = manager.resume_recording(id.as_str());
            proof {
                let rid = match request.recording_id {
                    Some(s) => s@,
                    None => Seq::<char>::empty(),
                };
                let idx = spec_session_index(old(manager).sessions@, rid);
                lemma_session_index_props(old(manager).sessions@, rid);
                if resp.success {
                    assert(idx >= 0);
                }
            }
            resp
        },
        RecorderCommand::Cancel => {
            let id = match &request.recording_id {
                Some(s) => String::from_str(s.as_str()),
                None => String::new(),
            };
            proof {
                assert(id@ == (match request.recording_id {
                    Some(s) => s@,
                    None => Seq::<char>::empty(),
                }));
            }
            let resp = manager.cancel_recording(id.as_str(), now_secs);
            proof {
                let rid = match request.recording_id {
                    Some(s) => s@,
                    None => Seq::<char>::empty(),
                };
                let idx = spec_session_index(old(manager).sessions@, rid);
                lemma_session_index_props(old(manager).sessions@, rid);
                if resp.success {
                    assert(idx >= 0);
                }
            }
            resp
        },
        RecorderCommand::Finish => {
            let id = match &request.recording_id {
                Some(s) => String::from_str(s.as_str()),
                None => String::new(),
            };
            proof {
                assert(id@ == (match request.recording_id {
                    Some(s) => s@,
                    None => Seq::<char>::empty(),
                }));
            }
            let resp = manager.finish_recording(id.as_str(), now_secs);
            proof {
                let rid = match request.recording_id {
                    Some(s) => s@,
                    None => Seq::<char>::empty(),
                };
                let idx = spec_session_index(old(manager).sessions@, rid);
                lemma_session_index_props(old(manager).sessions@, rid);
                if resp.success {
                    assert(idx >= 0);
                }
            }
            resp
        },
    }
}

} // verus!
