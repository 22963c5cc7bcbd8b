//! The decisions of the main window that do not depend on how it is drawn.
use vstd::prelude::*;
use crate::text::{append_str, str_eq};
use crate::paths::opt_view;

verus! {

/// How a path field is marked: `None` when empty, otherwise whether it is
/// usable.
pub open spec fn field_mark(path: Option<Seq<char>>, usable: bool) -> Option<bool> {
    match path {
        Some(p) => if p.len() > 0 {
            Some(usable)
        } else {
            None
        },
        None => None,
    }
}

/// The marks of the source and destination fields: the source is usable
/// when it exists; the destination when it exists and differs from the
/// source.
pub fn field_validity(
    source: &Option<String>,
    source_exists: bool,
    dest: &Option<String>,
    dest_exists: bool,
) -> (r: (Option<bool>, Option<bool>))
    ensures
        r.0 == field_mark(opt_view(*source), source_exists),
        r.1 == field_mark(
            opt_view(*dest),
            dest_exists && match (source, dest) {
                (Some(s), Some(d)) => s@ != d@,
                _ => true,
            },
        ),
{
    let source_mark = match source {
        Some(p) => if p.unicode_len() > 0 {
            Some(source_exists)
        } else {
            None
        },
        None => None,
    };
    let dest_mark = match dest {
        Some(p) => if p.unicode_len() > 0 {
            let differs = match source {
                Some(s) => !str_eq(s.as_str(), p.as_str()),
                None => true,
            };
            Some(dest_exists && differs)
        } else {
            None
        },
        None => None,
    };
    (source_mark, dest_mark)
}

/// The folders for a backup started from the window, or the message asking
/// for the one that is missing (the source first).
pub fn backup_request(source: &Option<String>, dest: &Option<String>) -> (r: Result<(String, String), String>)
    ensures
        source is None ==> (r matches Err(m) && m@ == "Por favor selecciona una carpeta origen."@),
        source is Some && dest is None ==> (r matches Err(m) && m@
            == "Por favor selecciona una carpeta destino."@),
        match (*source, *dest) {
            (Some(s), Some(d)) => r == Ok::<(String, String), String>((s, d)),
            _ => true,
        },
{
    let s = match source {
        Some(p) => p.clone(),
        None => return Err("Por favor selecciona una carpeta origen.".to_owned()),
    };
    let d = match dest {
        Some(p) => p.clone(),
        None => return Err("Por favor selecciona una carpeta destino.".to_owned()),
    };
    Ok((s, d))
}

/// The status line: backing up, scheduled (with the next time when known),
/// or idle.
pub open spec fn status_line(backup_active: bool, schedule_enabled: bool, next: Option<Seq<char>>) -> Seq<char> {
    if backup_active {
        "Respaldando..."@
    } else if schedule_enabled {
        match next {
            Some(n) => "Programado: "@ + n,
            None => "Programado: —"@,
        }
    } else {
        "Inactivo"@
    }
}

/// The text of the status line.
pub fn status_text(backup_active: bool, schedule_enabled: bool, next: &Option<String>) -> (r: String)
    ensures
        r@ == status_line(backup_active, schedule_enabled, opt_view(*next)),
{
    if backup_active {
        "Respaldando...".to_owned()
    } else if schedule_enabled {
        match next {
            Some(n) => {
                let mut r = "Programado: ".to_owned();
                append_str(&mut r, n.as_str());
                r
            },
            None => "Programado: —".to_owned(),
        }
    } else {
        "Inactivo".to_owned()
    }
}

/// Takes in folders dropped on the window, in order: each goes to the
/// source while that is empty, and to the destination otherwise. True when
/// the destination changed.
pub fn take_dropped_folders(source: &mut Option<String>, dest: &mut Option<String>, folders: Vec<String>) -> (changed: bool)
    ensures
        folders.len() == 0 ==> *final(source) == *old(source) && *final(dest) == *old(dest) && !changed,
        *old(source) is Some ==> *final(source) == *old(source),
        *old(source) is Some && folders.len() > 0 ==> *final(dest) == Some(folders@.last()) && changed,
        *old(source) is None && folders.len() > 0 ==> *final(source) == Some(folders@[0]),
        *old(source) is None && folders.len() == 1 ==> *final(dest) == *old(dest) && !changed,
        *old(source) is None && folders.len() > 1 ==> *final(dest) == Some(folders@.last()) && changed,
{
    let mut changed = false;
    let n = folders.len();
    let mut i: usize = 0;
    let ghost start_source = *source;
    let ghost start_dest = *dest;
    while i < n
        invariant
            n == folders.len(),
            i <= n,
            i == 0 ==> *source == start_source && *dest == start_dest && !changed,
            start_source is Some ==> *source == start_source,
            start_source is Some && i > 0 ==> *dest == Some(folders@[i - 1]) && changed,
            start_source is None && i > 0 ==> *source == Some(folders@[0]),
            start_source is None && i == 1 ==> *dest == start_dest && !changed,
            start_source is None && i > 1 ==> *dest == Some(folders@[i - 1]) && changed,
        decreases n - i,
    {
        let folder = folders[i].clone();
        if source.is_none() {
            *source = Some(folder);
        } else {
            *dest = Some(folder);
            changed = true;
        }
        i = i + 1;
    }
    changed
}

/// Which notices have had their time: the success message after three
/// seconds, the "saved" mark after a second and a half.
pub fn expired_notices(success_age_secs: Option<i64>, saved_age_ms: Option<i64>) -> (r: (bool, bool))
    ensures
        r.0 == (success_age_secs matches Some(s) && s >= 3),
        r.1 == (saved_age_ms matches Some(ms) && ms >= 1500),
{
    let success = match success_age_secs {
        Some(s) => s >= 3,
        None => false,
    };
    let saved = match saved_age_ms {
        Some(ms) => ms >= 1500,
        None => false,
    };
    (success, saved)
}

/// Whether a reading of the free space taken `age_secs` seconds ago may
/// still be shown: readings are renewed every five seconds.
pub fn space_reading_fresh(age_secs: i64) -> (r: bool)
    ensures
        r == (age_secs < 5),
{
    age_secs < 5
}

} // verus!
