//! UI language support: which language the interface renders in, and the
//! catalog of user-visible strings.
//!
//! Jargon policy: platform terms (first blood, flag, writeup, root, user,
//! MD5, leaderboard, URL) stay English in both languages. Difficulty and
//! OS values come from site data and are never touched.
use vstd::prelude::*;

use crate::text::{
    decimal, decimal_string, eq_ignore_ascii_case, eq_ignore_ascii_case_seq, push_decimal, trim,
    trimmed,
};

verus! {

/// Interface language.
#[derive(Debug, Clone, Copy, PartialEq, Eq, Structural)]
pub enum Lang {
    En,
    Es,
}

impl Default for Lang {
    /// English, the language the interface starts in.
    fn default() -> (r: Self)
        ensures
            r == Lang::En,
    {
        Lang::En
    }
}

impl Lang {
    /// The other language.
    pub open spec fn other(self) -> Lang {
        match self {
            Lang::En => Lang::Es,
            Lang::Es => Lang::En,
        }
    }

    /// The language's code.
    pub open spec fn code(self) -> Seq<char> {
        match self {
            Lang::En => "en"@,
            Lang::Es => "es"@,
        }
    }

    /// The language's own name, untranslated.
    pub open spec fn display_text(self) -> Seq<char> {
        match self {
            Lang::En => "English"@,
            Lang::Es => "Español"@,
        }
    }

    /// The language a code selects: Spanish for "es" (trimmed, any case),
    /// English for anything else, the empty code included. (Only 'E' and
    /// 'S' lower-case to 'e' and 's', so comparing without ASCII case is
    /// comparing the lower-cased code.)
    pub open spec fn of_code(code: Seq<char>) -> Lang {
        if eq_ignore_ascii_case_seq(trim(code), "es"@) {
            Lang::Es
        } else {
            Lang::En
        }
    }

    pub fn toggle(self) -> (r: Self)
        ensures
            r == self.other(),
    {
        match self {
            Lang::En => Lang::Es,
            Lang::Es => Lang::En,
        }
    }

    pub fn as_str(self) -> (r: &'static str)
        ensures
            r@ == self.code(),
    {
        match self {
            Lang::En => "en",
            Lang::Es => "es",
        }
    }

    /// Human-readable name of the language (its own name, untranslated).
    pub fn display_name(self) -> (r: &'static str)
        ensures
            r@ == self.display_text(),
    {
        match self {
            Lang::En => "English",
            Lang::Es => "Español",
        }
    }

    /// Invalid or empty code falls back to English; a language's own code
    /// gives the language.
    pub fn from_code(code: &str) -> (r: Self)
        ensures
            r == Lang::of_code(code@),
            forall|l: Lang| code@ == #[trigger] l.code() ==> r == l,
    {
        proof {
            language_toggle_and_code_round_trip(Lang::En);
            language_toggle_and_code_round_trip(Lang::Es);
        }
        let t = trimmed(code);
        if eq_ignore_ascii_case(t.as_str(), "es") {
            Lang::Es
        } else {
            Lang::En
        }
    }
}

/// Toggling the language twice gives it back, and reading a language's
/// code gives the language again.
pub proof fn language_toggle_and_code_round_trip(lang: Lang)
    ensures
        lang.other().other() == lang,
        lang.other() != lang,
        Lang::of_code(lang.code()) == lang,
{
    reveal_strlit("es");
    reveal_strlit("en");
    let code = lang.code();
    assert(crate::text::trim_start(code) == code);
    assert(crate::text::trim_end(code) == code);
    if lang == Lang::En {
        assert(crate::text::ascii_lower(code[1]) != crate::text::ascii_lower("es"@[1]));
    }
}

/// One user-visible string of the interface.
#[derive(Debug, Clone)]
pub enum Msg {
    MachinesCount(usize),
    HeaderFirstBlood(usize, usize),
    Leaderboard(usize),
    LeaderboardNone,
    ColMachine,
    ColDifficulty,
    ColOs,
    ColCreator,
    ColDate,
    ColFirstBlood,
    ColType,
    ColUrl,
    ColAuthor,
    MachinesTitle(usize, usize),
    DoneNote(usize, bool),
    FbOnly,
    FbOpen(usize),
    ProgressTitle(usize, usize),
    SortSite,
    SortName,
    SortDate,
    SortDifficulty,
    SubmitFlagTitle(String),
    SubmitWriteupTitle(String),
    UsernameTitle,
    PromptUserFlag,
    PromptRootFlag,
    PromptUrl,
    PromptType,
    PromptLanguage,
    PromptUsername,
    HintSubmit,
    HintSubmitPickers,
    HintSave,
    HintEscClose,
    HintEnterEscClose,
    HintWriteupsRow,
    LangPanelHeader,
    TypePanelHeader,
    FooterMachines,
    FooterProgress,
    FooterGlobal,
    FooterFilter,
    FooterPopupDefault,
    FetchingLoad,
    FetchingRefresh,
    Cancelled,
    NothingSelected,
    MarkedCompleted(String),
    MarkedNotCompleted(String),
    CompletedHidden,
    CompletedShown,
    LanguageSet(Lang),
    OpenedInBrowser(String),
    XdgOpenFailed(String),
    NoWriteupLink,
    WriteupsWrongTab,
    NoCommunityWriteups(String),
    SubmitWrongTab,
    SetUsernameFirst,
    FlagsWrongTab,
    DownloadsWrongTab,
    DownloadOpened(String),
    UsernameTooShort,
    SaveFailed(String),
    UsernameSet(String),
    FlagNotMd5(String),
    FillOneFlag,
    IndicateUrl,
    ActionFailed(String),
    FetchFailed(String),
    DataRefreshed,
    SlotsTaken,
    TakenBy(String),
    FlagTakenNotice(&'static str, String),
    BloodHolders(String, String),
    DescDifficulty(String, String, u64, u64),
    DescPlatform(String, String),
    DescCreator(String, String),
    DescMd5,
    DescTags(String),
    DescBloodUser(String),
    DescBloodRoot(String),
    SlotOpen,
    FlagAccepted(&'static str, String),
    NoFlagSubmitted,
    FlagsSubmitted(usize, String),
    WriteupSubmitted(String),
    WriteupPending(String),
}

/// The text of a message in English.
pub open spec fn text_en(m: Msg) -> Seq<char> {
    match m {
        Msg::MachinesCount(n) => decimal(n as nat) + " machines"@,
        Msg::HeaderFirstBlood(u, r) => "first blood: user "@ + decimal(u as nat) + " · root "@ + decimal(r as nat),
        Msg::Leaderboard(rank) => "leaderboard #"@ + decimal(rank as nat),
        Msg::LeaderboardNone => "leaderboard -"@,
        Msg::ColMachine => "Machine"@,
        Msg::ColDifficulty => "Difficulty"@,
        Msg::ColOs => "OS"@,
        Msg::ColCreator => "Creator"@,
        Msg::ColDate => "Date"@,
        Msg::ColFirstBlood => "First Blood"@,
        Msg::ColType => "Type"@,
        Msg::ColUrl => "URL"@,
        Msg::ColAuthor => "Author"@,
        Msg::MachinesTitle(vis, total) => " Machines "@ + decimal(vis as nat) + "/"@ + decimal(total as nat) + " "@,
        Msg::DoneNote(n, hidden) => if hidden {
                " · done: "@ + decimal(n as nat) + " (hidden)"@
            } else {
                " · done: "@ + decimal(n as nat)
            },
        Msg::FbOnly => " · first blood only"@,
        Msg::FbOpen(n) => " · first blood open: "@ + decimal(n as nat),
        Msg::ProgressTitle(fb, wu) => " First bloods "@ + decimal(fb as nat) + " · writeups "@ + decimal(wu as nat) + " "@,
        Msg::SortSite => Seq::empty(),
        Msg::SortName => " · sort: name"@,
        Msg::SortDate => " · sort: date"@,
        Msg::SortDifficulty => " · sort: difficulty"@,
        Msg::SubmitFlagTitle(machine) => " First blood — "@ + machine@ + " "@,
        Msg::SubmitWriteupTitle(machine) => " Submit writeup — "@ + machine@ + " "@,
        Msg::UsernameTitle => " Your username "@,
        Msg::PromptUserFlag => "User flag (MD5):"@,
        Msg::PromptRootFlag => "Root flag (MD5):"@,
        Msg::PromptUrl => "URL:"@,
        Msg::PromptType => "Type:"@,
        Msg::PromptLanguage => "Language:"@,
        Msg::PromptUsername => "Username:"@,
        Msg::HintSubmit => "Enter submit · ↑↓/Tab switch field · Esc cancel"@,
        Msg::HintSubmitPickers => "Enter submit · Space pick type/language · ↑↓/Tab switch field · Esc cancel"@,
        Msg::HintSave => "Enter save · Esc cancel"@,
        Msg::HintEscClose => "Esc close"@,
        Msg::HintEnterEscClose => "Enter / Esc close"@,
        Msg::HintWriteupsRow => "Enter open · jk select · Esc close"@,
        Msg::LangPanelHeader => "↑↓ move · Space toggle · Enter/Esc done"@,
        Msg::TypePanelHeader => "↑↓ move · Space select · Enter/Esc done"@,
        Msg::FooterMachines => "jk move · / filter · s sort · d download · f flag · w writeups · u submit · b blood · m done · x hide · i info"@,
        Msg::FooterProgress => "jk move · Enter open writeup"@,
        Msg::FooterGlobal => "Tab tabs · a username · l language · r refresh · q quit"@,
        Msg::FooterFilter => "Enter confirm · Esc clears & exits"@,
        Msg::FooterPopupDefault => "Enter confirm · Esc cancel"@,
        Msg::FetchingLoad => "Loading data..."@,
        Msg::FetchingRefresh => "Refreshing data..."@,
        Msg::Cancelled => "Cancelled."@,
        Msg::NothingSelected => "Nothing selected."@,
        Msg::MarkedCompleted(name) => name@ + " marked as completed."@,
        Msg::MarkedNotCompleted(name) => name@ + " marked as not completed."@,
        Msg::CompletedHidden => "completed machines hidden"@,
        Msg::CompletedShown => "completed machines shown"@,
        Msg::LanguageSet(l) => "Language: "@ + l.display_text(),
        Msg::OpenedInBrowser(url) => "Opened in browser: "@ + url@,
        Msg::XdgOpenFailed(error) => "xdg-open failed: "@ + error@,
        Msg::NoWriteupLink => "No writeup link on this row."@,
        Msg::WriteupsWrongTab => "Writeups are available on the Machines tab."@,
        Msg::NoCommunityWriteups(machine) => "No community writeups for "@ + machine@ + " yet."@,
        Msg::SubmitWrongTab => "Writeup submission is available on the Machines tab."@,
        Msg::SetUsernameFirst => "Set your username first (a)."@,
        Msg::FlagsWrongTab => "Flags are only available on the Machines tab."@,
        Msg::DownloadsWrongTab => "Downloads are only available on the Machines tab."@,
        Msg::DownloadOpened(url) => "[↓] Download page opened: "@ + url@,
        Msg::UsernameTooShort => "The username needs at least 2 characters."@,
        Msg::SaveFailed(error) => "Failed to save: "@ + error@,
        Msg::UsernameSet(username) => "[✓] Username set to "@ + username@ + "."@,
        Msg::FlagNotMd5(flag_type) => "The "@ + flag_type@ + " flag must be an MD5 hash: 32 hex characters."@,
        Msg::FillOneFlag => "Fill at least one flag."@,
        Msg::IndicateUrl => "Indicate the writeup URL."@,
        Msg::ActionFailed(error) => "Action failed: "@ + error@,
        Msg::FetchFailed(error) => "Fetch failed: "@ + error@,
        Msg::DataRefreshed => "Data refreshed."@,
        Msg::SlotsTaken => "First blood: ✗ BOTH SLOTS ALREADY TAKEN"@,
        Msg::TakenBy(name) => "taken by "@ + name@,
        Msg::FlagTakenNotice(kind, name) => kind@ + " flag: taken by "@ + name@,
        Msg::BloodHolders(user, root) => "user → "@ + user@ + " · root → "@ + root@,
        Msg::DescDifficulty(difficulty, os, pts_user, pts_root) => "Difficulty: "@ + difficulty@ + " · OS: "@ + os@ + " · Points: "@ + decimal(pts_user as nat) + "/"@ + decimal(pts_root as nat),
        Msg::DescPlatform(platforms, size) => "Platform: "@ + platforms@ + " · Size: "@ + size@,
        Msg::DescCreator(creator, date) => "Creator: "@ + creator@ + " · Date: "@ + date@,
        Msg::DescMd5 => "MD5:"@,
        Msg::DescTags(tags) => "Tech tags: "@ + tags@,
        Msg::DescBloodUser(holder) => "First blood user: "@ + holder@,
        Msg::DescBloodRoot(holder) => "First blood root: "@ + holder@,
        Msg::SlotOpen => "OPEN — claim it!"@,
        Msg::FlagAccepted(flag_type, message) => flag_type@ + " flag: ✓ ACCEPTED — "@ + message@,
        Msg::NoFlagSubmitted => "No flag was submitted."@,
        Msg::FlagsSubmitted(count, machine) => "[✓] "@ + decimal(count as nat) + " flag(s) submitted for "@ + machine@ + " — check First Bloods in Progress."@,
        Msg::WriteupSubmitted(message) => "Writeup: ✓ SUBMITTED — "@ + message@,
        Msg::WriteupPending(machine) => "[✓] Writeup submitted for "@ + machine@ + " — pending admin review (48h)."@,
    }
}

/// The text of a message in Spanish.
pub open spec fn text_es(m: Msg) -> Seq<char> {
    match m {
        Msg::MachinesCount(n) => decimal(n as nat) + " máquinas"@,
        Msg::HeaderFirstBlood(u, r) => "first blood: usuario "@ + decimal(u as nat) + " · root "@ + decimal(r as nat),
        Msg::Leaderboard(rank) => "leaderboard #"@ + decimal(rank as nat),
        Msg::LeaderboardNone => "leaderboard -"@,
        Msg::ColMachine => "Máquina"@,
        Msg::ColDifficulty => "Dificultad"@,
        Msg::ColOs => "SO"@,
        Msg::ColCreator => "Creador"@,
        Msg::ColDate => "Fecha"@,
        Msg::ColFirstBlood => "First Blood"@,
        Msg::ColType => "Tipo"@,
        Msg::ColUrl => "URL"@,
        Msg::ColAuthor => "Autor"@,
        Msg::MachinesTitle(vis, total) => " Máquinas "@ + decimal(vis as nat) + "/"@ + decimal(total as nat) + " "@,
        Msg::DoneNote(n, hidden) => if hidden {
                " · hechas: "@ + decimal(n as nat) + " (ocultas)"@
            } else {
                " · hechas: "@ + decimal(n as nat)
            },
        Msg::FbOnly => " · solo first blood"@,
        Msg::FbOpen(n) => " · first blood libre: "@ + decimal(n as nat),
        Msg::ProgressTitle(fb, wu) => " First bloods "@ + decimal(fb as nat) + " · writeups "@ + decimal(wu as nat) + " "@,
        Msg::SortSite => Seq::empty(),
        Msg::SortName => " · orden: nombre"@,
        Msg::SortDate => " · orden: fecha"@,
        Msg::SortDifficulty => " · orden: dificultad"@,
        Msg::SubmitFlagTitle(machine) => " First blood — "@ + machine@ + " "@,
        Msg::SubmitWriteupTitle(machine) => " Enviar writeup — "@ + machine@ + " "@,
        Msg::UsernameTitle => " Tu usuario "@,
        Msg::PromptUserFlag => "User flag (MD5):"@,
        Msg::PromptRootFlag => "Root flag (MD5):"@,
        Msg::PromptUrl => "URL:"@,
        Msg::PromptType => "Tipo:"@,
        Msg::PromptLanguage => "Idioma:"@,
        Msg::PromptUsername => "Usuario:"@,
        Msg::HintSubmit => "Enter enviar · ↑↓/Tab cambiar campo · Esc cancelar"@,
        Msg::HintSubmitPickers => "Enter enviar · Space elegir tipo/idioma · ↑↓/Tab cambiar campo · Esc cancelar"@,
        Msg::HintSave => "Enter guardar · Esc cancelar"@,
        Msg::HintEscClose => "Esc cerrar"@,
        Msg::HintEnterEscClose => "Enter / Esc cerrar"@,
        Msg::HintWriteupsRow => "Enter abrir · jk elegir · Esc cerrar"@,
        Msg::LangPanelHeader => "↑↓ mover · Space marcar · Enter/Esc listo"@,
        Msg::TypePanelHeader => "↑↓ mover · Space elegir · Enter/Esc listo"@,
        Msg::FooterMachines => "jk mover · / filtro · s orden · d descargar · f flag · w writeups · u enviar · b sangre · m hecha · x ocultar · i info"@,
        Msg::FooterProgress => "jk mover · Enter abrir writeup"@,
        Msg::FooterGlobal => "Tab pestañas · a usuario · l idioma · r refrescar · q salir"@,
        Msg::FooterFilter => "Enter confirma · Esc limpia y sale"@,
        Msg::FooterPopupDefault => "Enter confirmar · Esc cancelar"@,
        Msg::FetchingLoad => "Cargando datos..."@,
        Msg::FetchingRefresh => "Actualizando datos..."@,
        Msg::Cancelled => "Cancelado."@,
        Msg::NothingSelected => "Nada seleccionado."@,
        Msg::MarkedCompleted(name) => name@ + " marcada como completada."@,
        Msg::MarkedNotCompleted(name) => name@ + " marcada como no completada."@,
        Msg::CompletedHidden => "máquinas completadas ocultas"@,
        Msg::CompletedShown => "máquinas completadas visibles"@,
        Msg::LanguageSet(l) => "Idioma: "@ + l.display_text(),
        Msg::OpenedInBrowser(url) => "Abierto en el navegador: "@ + url@,
        Msg::XdgOpenFailed(error) => "xdg-open falló: "@ + error@,
        Msg::NoWriteupLink => "No hay enlace de writeup en esta fila."@,
        Msg::WriteupsWrongTab => "Los writeups están en la pestaña Machines."@,
        Msg::NoCommunityWriteups(machine) => "Aún no hay writeups de la comunidad para "@ + machine@ + "."@,
        Msg::SubmitWrongTab => "El envío de writeups está en la pestaña Machines."@,
        Msg::SetUsernameFirst => "Primero configura tu usuario (a)."@,
        Msg::FlagsWrongTab => "Los flags están solo en la pestaña Machines."@,
        Msg::DownloadsWrongTab => "Las descargas están solo en la pestaña Machines."@,
        Msg::DownloadOpened(url) => "[↓] Página de descarga abierta: "@ + url@,
        Msg::UsernameTooShort => "El usuario necesita al menos 2 caracteres."@,
        Msg::SaveFailed(error) => "Error al guardar: "@ + error@,
        Msg::UsernameSet(username) => "[✓] Usuario establecido en "@ + username@ + "."@,
        Msg::FlagNotMd5(flag_type) => "El flag "@ + flag_type@ + " debe ser un hash MD5: 32 caracteres hexadecimales."@,
        Msg::FillOneFlag => "Completa al menos un flag."@,
        Msg::IndicateUrl => "Indica la URL del writeup."@,
        Msg::ActionFailed(error) => "Acción fallida: "@ + error@,
        Msg::FetchFailed(error) => "Error al obtener datos: "@ + error@,
        Msg::DataRefreshed => "Datos actualizados."@,
        Msg::SlotsTaken => "First blood: ✗ AMBOS HUECOS YA TOMADOS"@,
        Msg::TakenBy(name) => "tomado por "@ + name@,
        Msg::FlagTakenNotice(kind, name) => "Flag "@ + kind@ + ": tomado por "@ + name@,
        Msg::BloodHolders(user, root) => "user → "@ + user@ + " · root → "@ + root@,
        Msg::DescDifficulty(difficulty, os, pts_user, pts_root) => "Dificultad: "@ + difficulty@ + " · SO: "@ + os@ + " · Puntos: "@ + decimal(pts_user as nat) + "/"@ + decimal(pts_root as nat),
        Msg::DescPlatform(platforms, size) => "Plataforma: "@ + platforms@ + " · Tamaño: "@ + size@,
        Msg::DescCreator(creator, date) => "Creador: "@ + creator@ + " · Fecha: "@ + date@,
        Msg::DescMd5 => "MD5:"@,
        Msg::DescTags(tags) => "Etiquetas: "@ + tags@,
        Msg::DescBloodUser(holder) => "First blood user: "@ + holder@,
        Msg::DescBloodRoot(holder) => "First blood root: "@ + holder@,
        Msg::SlotOpen => "¡LIBRE — reclámalo!"@,
        Msg::FlagAccepted(flag_type, message) => "Flag "@ + flag_type@ + ": ✓ ACEPTADO — "@ + message@,
        Msg::NoFlagSubmitted => "No se envió ningún flag."@,
        Msg::FlagsSubmitted(count, machine) => "[✓] "@ + decimal(count as nat) + " flag(s) enviados para "@ + machine@ + " — revisa First Bloods en Progress."@,
        Msg::WriteupSubmitted(message) => "Writeup: ✓ ENVIADO — "@ + message@,
        Msg::WriteupPending(machine) => "[✓] Writeup enviado para "@ + machine@ + " — pendiente de revisión (48h)."@,
    }
}

/// The text of a message in `lang`.
pub open spec fn msg_text(m: Msg, lang: Lang) -> Seq<char> {
    match lang {
        Lang::En => text_en(m),
        Lang::Es => text_es(m),
    }
}

impl Msg {
    /// The message in English.
    fn render_en(self) -> (r: String)
        ensures
            r@ == text_en(self),
    {
        match self {
            Msg::MachinesCount(n) => {
                let mut out = decimal_string(n as u64);
                out.append(" machines");
                out
            },
            Msg::HeaderFirstBlood(u, r) => {
                let mut out = String::from_str("first blood: user ");
                push_decimal(&mut out, u as u64);
                out.append(" · root ");
                push_decimal(&mut out, r as u64);
                out
            },
            Msg::Leaderboard(rank) => {
                let mut out = String::from_str("leaderboard #");
                push_decimal(&mut out, rank as u64);
                out
            },
            Msg::LeaderboardNone => {
                let mut out = String::from_str("leaderboard -");
                out
            },
            Msg::ColMachine => {
                let mut out = String::from_str("Machine");
                out
            },
            Msg::ColDifficulty => {
                let mut out = String::from_str("Difficulty");
                out
            },
            Msg::ColOs => {
                let mut out = String::from_str("OS");
                out
            },
            Msg::ColCreator => {
                let mut out = String::from_str("Creator");
                out
            },
            Msg::ColDate => {
                let mut out = String::from_str("Date");
                out
            },
            Msg::ColFirstBlood => {
                let mut out = String::from_str("First Blood");
                out
            },
            Msg::ColType => {
                let mut out = String::from_str("Type");
                out
            },
            Msg::ColUrl => {
                let mut out = String::from_str("URL");
                out
            },
            Msg::ColAuthor => {
                let mut out = String::from_str("Author");
                out
            },
            Msg::MachinesTitle(vis, total) => {
                let mut out = String::from_str(" Machines ");
                push_decimal(&mut out, vis as u64);
                out.append("/");
                push_decimal(&mut out, total as u64);
                out.append(" ");
                out
            },
            Msg::DoneNote(n, hidden) => {
                if hidden {
                    let mut out = String::from_str(" · done: ");
                    push_decimal(&mut out, n as u64);
                    out.append(" (hidden)");
                    out
                } else {
                    let mut out = String::from_str(" · done: ");
                    push_decimal(&mut out, n as u64);
                    out
                }
            },
            Msg::FbOnly => {
                let mut out = String::from_str(" · first blood only");
                out
            },
            Msg::FbOpen(n) => {
                let mut out = String::from_str(" · first blood open: ");
                push_decimal(&mut out, n as u64);
                out
            },
            Msg::ProgressTitle(fb, wu) => {
                let mut out = String::from_str(" First bloods ");
                push_decimal(&mut out, fb as u64);
                out.append(" · writeups ");
                push_decimal(&mut out, wu as u64);
                out.append(" ");
                out
            },
            Msg::SortSite => {
                String::new()
            },
            Msg::SortName => {
                let mut out = String::from_str(" · sort: name");
                out
            },
            Msg::SortDate => {
                let mut out = String::from_str(" · sort: date");
                out
            },
            Msg::SortDifficulty => {
                let mut out = String::from_str(" · sort: difficulty");
                out
            },
            Msg::SubmitFlagTitle(machine) => {
                let mut out = String::from_str(" First blood — ");
                out.append(machine.as_str());
                out.append(" ");
                out
            },
            Msg::SubmitWriteupTitle(machine) => {
                let mut out = String::from_str(" Submit writeup — ");
                out.append(machine.as_str());
                out.append(" ");
                out
            },
            Msg::UsernameTitle => {
                let mut out = String::from_str(" Your username ");
                out
            },
            Msg::PromptUserFlag => {
                let mut out = String::from_str("User flag (MD5):");
                out
            },
            Msg::PromptRootFlag => {
                let mut out = String::from_str("Root flag (MD5):");
                out
            },
            Msg::PromptUrl => {
                let mut out = String::from_str("URL:");
                out
            },
            Msg::PromptType => {
                let mut out = String::from_str("Type:");
                out
            },
            Msg::PromptLanguage => {
                let mut out = String::from_str("Language:");
                out
            },
            Msg::PromptUsername => {
                let mut out = String::from_str("Username:");
                out
            },
            Msg::HintSubmit => {
                let mut out = String::from_str("Enter submit · ↑↓/Tab switch field · Esc cancel");
                out
            },
            Msg::HintSubmitPickers => {
                let mut out = String::from_str("Enter submit · Space pick type/language · ↑↓/Tab switch field · Esc cancel");
                out
            },
            Msg::HintSave => {
                let mut out = String::from_str("Enter save · Esc cancel");
                out
            },
            Msg::HintEscClose => {
                let mut out = String::from_str("Esc close");
                out
            },
            Msg::HintEnterEscClose => {
                let mut out = String::from_str("Enter / Esc close");
                out
            },
            Msg::HintWriteupsRow => {
                let mut out = String::from_str("Enter open · jk select · Esc close");
                out
            },
            Msg::LangPanelHeader => {
                let mut out = String::from_str("↑↓ move · Space toggle · Enter/Esc done");
                out
            },
            Msg::TypePanelHeader => {
                let mut out = String::from_str("↑↓ move · Space select · Enter/Esc done");
                out
            },
            Msg::FooterMachines => {
                let mut out = String::from_str("jk move · / filter · s sort · d download · f flag · w writeups · u submit · b blood · m done · x hide · i info");
                out
            },
            Msg::FooterProgress => {
                let mut out = String::from_str("jk move · Enter open writeup");
                out
            },
            Msg::FooterGlobal => {
                let mut out = String::from_str("Tab tabs · a username · l language · r refresh · q quit");
                out
            },
            Msg::FooterFilter => {
                let mut out = String::from_str("Enter confirm · Esc clears & exits");
                out
            },
            Msg::FooterPopupDefault => {
                let mut out = String::from_str("Enter confirm · Esc cancel");
                out
            },
            Msg::FetchingLoad => {
                let mut out = String::from_str("Loading data...");
                out
            },
            Msg::FetchingRefresh => {
                let mut out = String::from_str("Refreshing data...");
                out
            },
            Msg::Cancelled => {
                let mut out = String::from_str("Cancelled.");
                out
            },
            Msg::NothingSelected => {
                let mut out = String::from_str("Nothing selected.");
                out
            },
            Msg::MarkedCompleted(name) => {
                let mut out = name;
                out.append(" marked as completed.");
                out
            },
            Msg::MarkedNotCompleted(name) => {
                let mut out = name;
                out.append(" marked as not completed.");
                out
            },
            Msg::CompletedHidden => {
                let mut out = String::from_str("completed machines hidden");
                out
            },
            Msg::CompletedShown => {
                let mut out = String::from_str("completed machines shown");
                out
            },
            Msg::LanguageSet(l) => {
                let mut out = String::from_str("Language: ");
                out.append(l.display_name());
                out
            },
            Msg::OpenedInBrowser(url) => {
                let mut out = String::from_str("Opened in browser: ");
                out.append(url.as_str());
                out
            },
            Msg::XdgOpenFailed(error) => {
                let mut out = String::from_str("xdg-open failed: ");
                out.append(error.as_str());
                out
            },
            Msg::NoWriteupLink => {
                let mut out = String::from_str("No writeup link on this row.");
                out
            },
            Msg::WriteupsWrongTab => {
                let mut out = String::from_str("Writeups are available on the Machines tab.");
                out
            },
            Msg::NoCommunityWriteups(machine) => {
                let mut out = String::from_str("No community writeups for ");
                out.append(machine.as_str());
                out.append(" yet.");
                out
            },
            Msg::SubmitWrongTab => {
                let mut out = String::from_str("Writeup submission is available on the Machines tab.");
                out
            },
            Msg::SetUsernameFirst => {
                let mut out = String::from_str("Set your username first (a).");
                out
            },
            Msg::FlagsWrongTab => {
                let mut out = String::from_str("Flags are only available on the Machines tab.");
                out
            },
            Msg::DownloadsWrongTab => {
                let mut out = String::from_str("Downloads are only available on the Machines tab.");
                out
            },
            Msg::DownloadOpened(url) => {
                let mut out = String::from_str("[↓] Download page opened: ");
                out.append(url.as_str());
                out
            },
            Msg::UsernameTooShort => {
                let mut out = String::from_str("The username needs at least 2 characters.");
                out
            },
            Msg::SaveFailed(error) => {
                let mut out = String::from_str("Failed to save: ");
                out.append(error.as_str());
                out
            },
            Msg::UsernameSet(username) => {
                let mut out = String::from_str("[✓] Username set to ");
                out.append(username.as_str());
                out.append(".");
                out
            },
            Msg::FlagNotMd5(flag_type) => {
                let mut out = String::from_str("The ");
                out.append(flag_type.as_str());
                out.append(" flag must be an MD5 hash: 32 hex characters.");
                out
            },
            Msg::FillOneFlag => {
                let mut out = String::from_str("Fill at least one flag.");
                out
            },
            Msg::IndicateUrl => {
                let mut out = String::from_str("Indicate the writeup URL.");
                out
            },
            Msg::ActionFailed(error) => {
                let mut out = String::from_str("Action failed: ");
                out.append(error.as_str());
                out
            },
            Msg::FetchFailed(error) => {
                let mut out = String::from_str("Fetch failed: ");
                out.append(error.as_str());
                out
            },
            Msg::DataRefreshed => {
                let mut out = String::from_str("Data refreshed.");
                out
            },
            Msg::SlotsTaken => {
                let mut out = String::from_str("First blood: ✗ BOTH SLOTS ALREADY TAKEN");
                out
            },
            Msg::TakenBy(name) => {
                let mut out = String::from_str("taken by ");
                out.append(name.as_str());
                out
            },
            Msg::FlagTakenNotice(kind, name) => {
                let mut out = String::from_str(kind);
                out.append(" flag: taken by ");
                out.append(name.as_str());
                out
            },
            Msg::BloodHolders(user, root) => {
                let mut out = String::from_str("user → ");
                out.append(user.as_str());
                out.append(" · root → ");
                out.append(root.as_str());
                out
            },
            Msg::DescDifficulty(difficulty, os, pts_user, pts_root) => {
                let mut out = String::from_str("Difficulty: ");
                out.append(difficulty.as_str());
                out.append(" · OS: ");
                out.append(os.as_str());
                out.append(" · Points: ");
                push_decimal(&mut out, pts_user as u64);
                out.append("/");
                push_decimal(&mut out, pts_root as u64);
                out
            },
            Msg::DescPlatform(platforms, size) => {
                let mut out = String::from_str("Platform: ");
                out.append(platforms.as_str());
                out.append(" · Size: ");
                out.append(size.as_str());
                out
            },
            Msg::DescCreator(creator, date) => {
                let mut out = String::from_str("Creator: ");
                out.append(creator.as_str());
                out.append(" · Date: ");
                out.append(date.as_str());
                out
            },
            Msg::DescMd5 => {
                let mut out = String::from_str("MD5:");
                out
            },
            Msg::DescTags(tags) => {
                let mut out = String::from_str("Tech tags: ");
                out.append(tags.as_str());
                out
            },
            Msg::DescBloodUser(holder) => {
                let mut out = String::from_str("First blood user: ");
                out.append(holder.as_str());
                out
            },
            Msg::DescBloodRoot(holder) => {
                let mut out = String::from_str("First blood root: ");
                out.append(holder.as_str());
                out
            },
            Msg::SlotOpen => {
                let mut out = String::from_str("OPEN — claim it!");
                out
            },
            Msg::FlagAccepted(flag_type, message) => {
                let mut out = String::from_str(flag_type);
                out.append(" flag: ✓ ACCEPTED — ");
                out.append(message.as_str());
                out
            },
            Msg::NoFlagSubmitted => {
                let mut out = String::from_str("No flag was submitted.");
                out
            },
            Msg::FlagsSubmitted(count, machine) => {
                let mut out = String::from_str("[✓] ");
                push_decimal(&mut out, count as u64);
                out.append(" flag(s) submitted for ");
                out.append(machine.as_str());
                out.append(" — check First Bloods in Progress.");
                out
            },
            Msg::WriteupSubmitted(message) => {
                let mut out = String::from_str("Writeup: ✓ SUBMITTED — ");
                out.append(message.as_str());
                out
            },
            Msg::WriteupPending(machine) => {
                let mut out = String::from_str("[✓] Writeup submitted for ");
                out.append(machine.as_str());
                out.append(" — pending admin review (48h).");
                out
            },
        }
    }

    /// The message in Spanish.
    fn render_es(self) -> (r: String)
        ensures
            r@ == text_es(self),
    {
        match self {
            Msg::MachinesCount(n) => {
                let mut out = decimal_string(n as u64);
                out.append(" máquinas");
                out
            },
            Msg::HeaderFirstBlood(u, r) => {
                let mut out = String::from_str("first blood: usuario ");
                push_decimal(&mut out, u as u64);
                out.append(" · root ");
                push_decimal(&mut out, r as u64);
                out
            },
            Msg::Leaderboard(rank) => {
                let mut out = String::from_str("leaderboard #");
                push_decimal(&mut out, rank as u64);
                out
            },
            Msg::LeaderboardNone => {
                let mut out = String::from_str("leaderboard -");
                out
            },
            Msg::ColMachine => {
                let mut out = String::from_str("Máquina");
                out
            },
            Msg::ColDifficulty => {
                let mut out = String::from_str("Dificultad");
                out
            },
            Msg::ColOs => {
                let mut out = String::from_str("SO");
                out
            },
            Msg::ColCreator => {
                let mut out = String::from_str("Creador");
                out
            },
            Msg::ColDate => {
                let mut out = String::from_str("Fecha");
                out
            },
            Msg::ColFirstBlood => {
                let mut out = String::from_str("First Blood");
                out
            },
            Msg::ColType => {
                let mut out = String::from_str("Tipo");
                out
            },
            Msg::ColUrl => {
                let mut out = String::from_str("URL");
                out
            },
            Msg::ColAuthor => {
                let mut out = String::from_str("Autor");
                out
            },
            Msg::MachinesTitle(vis, total) => {
                let mut out = String::from_str(" Máquinas ");
                push_decimal(&mut out, vis as u64);
                out.append("/");
                push_decimal(&mut out, total as u64);
                out.append(" ");
                out
            },
            Msg::DoneNote(n, hidden) => {
                if hidden {
                    let mut out = String::from_str(" · hechas: ");
                    push_decimal(&mut out, n as u64);
                    out.append(" (ocultas)");
                    out
                } else {
                    let mut out = String::from_str(" · hechas: ");
                    push_decimal(&mut out, n as u64);
                    out
                }
            },
            Msg::FbOnly => {
                let mut out = String::from_str(" · solo first blood");
                out
            },
            Msg::FbOpen(n) => {
                let mut out = String::from_str(" · first blood libre: ");
                push_decimal(&mut out, n as u64);
                out
            },
            Msg::ProgressTitle(fb, wu) => {
                let mut out = String::from_str(" First bloods ");
                push_decimal(&mut out, fb as u64);
                out.append(" · writeups ");
                push_decimal(&mut out, wu as u64);
                out.append(" ");
                out
            },
            Msg::SortSite => {
                String::new()
            },
            Msg::SortName => {
                let mut out = String::from_str(" · orden: nombre");
                out
            },
            Msg::SortDate => {
                let mut out = String::from_str(" · orden: fecha");
                out
            },
            Msg::SortDifficulty => {
                let mut out = String::from_str(" · orden: dificultad");
                out
            },
            Msg::SubmitFlagTitle(machine) => {
                let mut out = String::from_str(" First blood — ");
                out.append(machine.as_str());
                out.append(" ");
                out
            },
            Msg::SubmitWriteupTitle(machine) => {
                let mut out = String::from_str(" Enviar writeup — ");
                out.append(machine.as_str());
                out.append(" ");
                out
            },
            Msg::UsernameTitle => {
                let mut out = String::from_str(" Tu usuario ");
                out
            },
            Msg::PromptUserFlag => {
                let mut out = String::from_str("User flag (MD5):");
                out
            },
            Msg::PromptRootFlag => {
                let mut out = String::from_str("Root flag (MD5):");
                out
            },
            Msg::PromptUrl => {
                let mut out = String::from_str("URL:");
                out
            },
            Msg::PromptType => {
                let mut out = String::from_str("Tipo:");
                out
            },
            Msg::PromptLanguage => {
                let mut out = String::from_str("Idioma:");
                out
            },
            Msg::PromptUsername => {
                let mut out = String::from_str("Usuario:");
                out
            },
            Msg::HintSubmit => {
                let mut out = String::from_str("Enter enviar · ↑↓/Tab cambiar campo · Esc cancelar");
                out
            },
            Msg::HintSubmitPickers => {
                let mut out = String::from_str("Enter enviar · Space elegir tipo/idioma · ↑↓/Tab cambiar campo · Esc cancelar");
                out
            },
            Msg::HintSave => {
                let mut out = String::from_str("Enter guardar · Esc cancelar");
                out
            },
            Msg::HintEscClose => {
                let mut out = String::from_str("Esc cerrar");
                out
            },
            Msg::HintEnterEscClose => {
                let mut out = String::from_str("Enter / Esc cerrar");
                out
            },
            Msg::HintWriteupsRow => {
                let mut out = String::from_str("Enter abrir · jk elegir · Esc cerrar");
                out
            },
            Msg::LangPanelHeader => {
                let mut out = String::from_str("↑↓ mover · Space marcar · Enter/Esc listo");
                out
            },
            Msg::TypePanelHeader => {
                let mut out = String::from_str("↑↓ mover · Space elegir · Enter/Esc listo");
                out
            },
            Msg::FooterMachines => {
                let mut out = String::from_str("jk mover · / filtro · s orden · d descargar · f flag · w writeups · u enviar · b sangre · m hecha · x ocultar · i info");
                out
            },
            Msg::FooterProgress => {
                let mut out = String::from_str("jk mover · Enter abrir writeup");
                out
            },
            Msg::FooterGlobal => {
                let mut out = String::from_str("Tab pestañas · a usuario · l idioma · r refrescar · q salir");
                out
            },
            Msg::FooterFilter => {
                let mut out = String::from_str("Enter confirma · Esc limpia y sale");
                out
            },
            Msg::FooterPopupDefault => {
                let mut out = String::from_str("Enter confirmar · Esc cancelar");
                out
            },
            Msg::FetchingLoad => {
                let mut out = String::from_str("Cargando datos...");
                out
            },
            Msg::FetchingRefresh => {
                let mut out = String::from_str("Actualizando datos...");
                out
            },
            Msg::Cancelled => {
                let mut out = String::from_str("Cancelado.");
                out
            },
            Msg::NothingSelected => {
                let mut out = String::from_str("Nada seleccionado.");
                out
            },
            Msg::MarkedCompleted(name) => {
                let mut out = name;
                out.append(" marcada como completada.");
                out
            },
            Msg::MarkedNotCompleted(name) => {
                let mut out = name;
                out.append(" marcada como no completada.");
                out
            },
            Msg::CompletedHidden => {
                let mut out = String::from_str("máquinas completadas ocultas");
                out
            },
            Msg::CompletedShown => {
                let mut out = String::from_str("máquinas completadas visibles");
                out
            },
            Msg::LanguageSet(l) => {
                let mut out = String::from_str("Idioma: ");
                out.append(l.display_name());
                out
            },
            Msg::OpenedInBrowser(url) => {
                let mut out = String::from_str("Abierto en el navegador: ");
                out.append(url.as_str());
                out
            },
            Msg::XdgOpenFailed(error) => {
                let mut out = String::from_str("xdg-open falló: ");
                out.append(error.as_str());
                out
            },
            Msg::NoWriteupLink => {
                let mut out = String::from_str("No hay enlace de writeup en esta fila.");
                out
            },
            Msg::WriteupsWrongTab => {
                let mut out = String::from_str("Los writeups están en la pestaña Machines.");
                out
            },
            Msg::NoCommunityWriteups(machine) => {
                let mut out = String::from_str("Aún no hay writeups de la comunidad para ");
                out.append(machine.as_str());
                out.append(".");
                out
            },
            Msg::SubmitWrongTab => {
                let mut out = String::from_str("El envío de writeups está en la pestaña Machines.");
                out
            },
            Msg::SetUsernameFirst => {
                let mut out = String::from_str("Primero configura tu usuario (a).");
                out
            },
            Msg::FlagsWrongTab => {
                let mut out = String::from_str("Los flags están solo en la pestaña Machines.");
                out
            },
            Msg::DownloadsWrongTab => {
                let mut out = String::from_str("Las descargas están solo en la pestaña Machines.");
                out
            },
            Msg::DownloadOpened(url) => {
                let mut out = String::from_str("[↓] Página de descarga abierta: ");
                out.append(url.as_str());
                out
            },
            Msg::UsernameTooShort => {
                let mut out = String::from_str("El usuario necesita al menos 2 caracteres.");
                out
            },
            Msg::SaveFailed(error) => {
                let mut out = String::from_str("Error al guardar: ");
                out.append(error.as_str());
                out
            },
            Msg::UsernameSet(username) => {
                let mut out = String::from_str("[✓] Usuario establecido en ");
                out.append(username.as_str());
                out.append(".");
                out
            },
            Msg::FlagNotMd5(flag_type) => {
                let mut out = String::from_str("El flag ");
                out.append(flag_type.as_str());
                out.append(" debe ser un hash MD5: 32 caracteres hexadecimales.");
                out
            },
            Msg::FillOneFlag => {
                let mut out = String::from_str("Completa al menos un flag.");
                out
            },
            Msg::IndicateUrl => {
                let mut out = String::from_str("Indica la URL del writeup.");
                out
            },
            Msg::ActionFailed(error) => {
                let mut out = String::from_str("Acción fallida: ");
                out.append(error.as_str());
                out
            },
            Msg::FetchFailed(error) => {
                let mut out = String::from_str("Error al obtener datos: ");
                out.append(error.as_str());
                out
            },
            Msg::DataRefreshed => {
                let mut out = String::from_str("Datos actualizados.");
                out
            },
            Msg::SlotsTaken => {
                let mut out = String::from_str("First blood: ✗ AMBOS HUECOS YA TOMADOS");
                out
            },
            Msg::TakenBy(name) => {
                let mut out = String::from_str("tomado por ");
                out.append(name.as_str());
                out
            },
            Msg::FlagTakenNotice(kind, name) => {
                let mut out = String::from_str("Flag ");
                out.append(kind);
                out.append(": tomado por ");
                out.append(name.as_str());
                out
            },
            Msg::BloodHolders(user, root) => {
                let mut out = String::from_str("user → ");
                out.append(user.as_str());
                out.append(" · root → ");
                out.append(root.as_str());
                out
            },
            Msg::DescDifficulty(difficulty, os, pts_user, pts_root) => {
                let mut out = String::from_str("Dificultad: ");
                out.append(difficulty.as_str());
                out.append(" · SO: ");
                out.append(os.as_str());
                out.append(" · Puntos: ");
                push_decimal(&mut out, pts_user as u64);
                out.append("/");
                push_decimal(&mut out, pts_root as u64);
                out
            },
            Msg::DescPlatform(platforms, size) => {
                let mut out = String::from_str("Plataforma: ");
                out.append(platforms.as_str());
                out.append(" · Tamaño: ");
                out.append(size.as_str());
                out
            },
            Msg::DescCreator(creator, date) => {
                let mut out = String::from_str("Creador: ");
                out.append(creator.as_str());
                out.append(" · Fecha: ");
                out.append(date.as_str());
                out
            },
            Msg::DescMd5 => {
                let mut out = String::from_str("MD5:");
                out
            },
            Msg::DescTags(tags) => {
                let mut out = String::from_str("Etiquetas: ");
                out.append(tags.as_str());
                out
            },
            Msg::DescBloodUser(holder) => {
                let mut out = String::from_str("First blood user: ");
                out.append(holder.as_str());
                out
            },
            Msg::DescBloodRoot(holder) => {
                let mut out = String::from_str("First blood root: ");
                out.append(holder.as_str());
                out
            },
            Msg::SlotOpen => {
                let mut out = String::from_str("¡LIBRE — reclámalo!");
                out
            },
            Msg::FlagAccepted(flag_type, message) => {
                let mut out = String::from_str("Flag ");
                out.append(flag_type);
                out.append(": ✓ ACEPTADO — ");
                out.append(message.as_str());
                out
            },
            Msg::NoFlagSubmitted => {
                let mut out = String::from_str("No se envió ningún flag.");
                out
            },
            Msg::FlagsSubmitted(count, machine) => {
                let mut out = String::from_str("[✓] ");
                push_decimal(&mut out, count as u64);
                out.append(" flag(s) enviados para ");
                out.append(machine.as_str());
                out.append(" — revisa First Bloods en Progress.");
                out
            },
            Msg::WriteupSubmitted(message) => {
                let mut out = String::from_str("Writeup: ✓ ENVIADO — ");
                out.append(message.as_str());
                out
            },
            Msg::WriteupPending(machine) => {
                let mut out = String::from_str("[✓] Writeup enviado para ");
                out.append(machine.as_str());
                out.append(" — pendiente de revisión (48h).");
                out
            },
        }
    }

    /// Renders the message in `lang`.
    pub fn render(self, lang: Lang) -> (r: String)
        ensures
            r@ == msg_text(self, lang),
    {
        match lang {
            Lang::En => self.render_en(),
            Lang::Es => self.render_es(),
        }
    }
}

} // verus!
