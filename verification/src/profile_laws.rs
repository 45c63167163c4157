//! Laws of profiles: what is read from a form or a command line, what is kept, and where the
//! credential goes.
use vstd::prelude::*;
use crate::cli;
use crate::cli::{FaultModel, ProfileArguments};
use crate::config;
use crate::config::{ForwardTargetModel, NormalizedModel, PathPlaceModel};
use crate::float;
use crate::float::FloatBits;
use crate::forms;
use crate::forms::{FormModel, IntifaceFormModel, KeptCredential, RouteFormModel, RowModel};
use crate::intiface::SourceKindModel;
use crate::ip;
use crate::ip_text;
use crate::mapping;
use crate::mapping::MappingModel;
use crate::runtime;
use crate::service;
use crate::service::ServiceError;
use crate::store;
use crate::store::{KeyringRead, LoadedModel, LoadedProfile, LookupStep, PlaceModel, ProfileModel, RecordModel, StoreError, SummaryModel};
use crate::text;
use crate::text_laws;

verus! {

/// A target that is written as host and port is read back, blanks aside, by the form and by the
/// command line alike.
pub proof fn law_target_read_back(target: ForwardTargetModel)
    requires
        target.port > 0,
        target.host.len() > 0,
        text::trimmed(target.host) == target.host,
        forall|i: int| 0 <= i < target.host.len() ==> #[trigger] target.host[i] != ':',
    ensures
        forms::target_of(target.host + ":"@ + text::decimal_text(target.port as nat)) == Ok::<
            ForwardTargetModel,
            Seq<char>,
        >(target),
        cli::target_argument(target.host + ":"@ + text::decimal_text(target.port as nat)) == Ok::<
            ForwardTargetModel,
            FaultModel,
        >(target),
{
    let digits = text::decimal_text(target.port as nat);
    let line = target.host + ":"@ + digits;
    text_laws::law_number_read_back(target.port as nat, 65_535);
    lemma_target_parts(target.host, digits);
    assert(forms::target_parts(text::pieces(line, seq![':'])) == Some((target.host, digits)));
}

proof fn lemma_target_parts(host: Seq<char>, digits: Seq<char>)
    requires
        host.len() > 0,
        text::trimmed(host) == host,
        forall|i: int| 0 <= i < host.len() ==> #[trigger] host[i] != ':',
        digits.len() > 0,
        text::all_digits(digits),
    ensures
        text::pieces(host + ":"@ + digits, seq![':']) == seq![host, digits],
        text::trimmed(host + ":"@ + digits) == host + ":"@ + digits,
        (host + ":"@ + digits).len() > 0,
{
    reveal_strlit(":");
    let line = host + ":"@ + digits;
    assert(line =~= host.push(':') + digits);
    assert(text::trimmed(line) == line) by {
        lemma_no_outer_blanks(host, digits);
    }
    assert forall|i: int| 0 <= i < digits.len() implies #[trigger] digits[i] != ':' by {
        assert(text::is_digit(digits[i]));
    }
    lemma_two_pieces(host, digits);
}

proof fn lemma_no_outer_blanks(host: Seq<char>, digits: Seq<char>)
    requires
        host.len() > 0,
        text::trimmed(host) == host,
        digits.len() > 0,
        text::all_digits(digits),
    ensures
        text::trimmed(host.push(':') + digits) == host.push(':') + digits,
{
    let line = host.push(':') + digits;
    assert(!text::is_white(line[0])) by {
        text_laws::law_trimmed(host);
        assert(line[0] == host[0]);
    }
    assert(!text::is_white(line.last())) by {
        assert(line.last() == digits[digits.len() - 1]);
        assert(text::is_digit(digits[digits.len() - 1]));
    }
    text_laws::law_blanks_do_not_count(line, ' ');
}

proof fn lemma_two_pieces(host: Seq<char>, digits: Seq<char>)
    requires
        forall|i: int| 0 <= i < host.len() ==> #[trigger] host[i] != ':',
        forall|i: int| 0 <= i < digits.len() ==> #[trigger] digits[i] != ':',
    ensures
        text::pieces(host.push(':') + digits, seq![':']) == seq![host, digits],
{
    let separators = seq![':'];
    assert(separators[0] == ':');
    text_laws::lemma_one_piece(host, ':');
    text_laws::lemma_one_piece(digits, ':');
    text::law_pieces_parted(host, ':', digits, separators);
    assert(seq![host] + seq![digits] =~= seq![host, digits]);
}

/// What is read as a target names a host and a port from one up, and stood on the line in just
/// that form.
pub proof fn law_target_read(line: Seq<char>)
    ensures
        forms::target_of(line) matches Ok(target) ==> {
            let parts = text::pieces(text::trimmed(line), seq![':']);
            &&& target.port > 0
            &&& parts.len() == 2
            &&& target.host == text::trimmed(parts[0]) && target.host.len() > 0
            &&& text::unsigned_value(text::trimmed(parts[1]), 65_535) == Some(target.port as nat)
        },
        text::trimmed(line).len() == 0 ==> forms::target_of(line) is Err,
        cli::target_argument(line) matches Ok(target) ==> {
            let parts = text::pieces(line, seq![':']);
            &&& target.port > 0
            &&& parts.len() == 2
            &&& target.host == text::trimmed(parts[0]) && target.host.len() > 0
            &&& text::unsigned_value(text::trimmed(parts[1]), 65_535) == Some(target.port as nat)
        },
{
}

/// Lines of targets are read one after the other; blank ones are passed over, and the first bad
/// one is reported.
pub proof fn law_target_lines(lines: Seq<Seq<char>>, line: Seq<char>)
    ensures
        forms::targets_of(Seq::empty()) == Ok::<Seq<ForwardTargetModel>, Seq<char>>(Seq::empty()),
        match forms::targets_of(lines) {
            Err(message) => forms::targets_of(lines.push(line)) == Err::<
                Seq<ForwardTargetModel>,
                Seq<char>,
            >(message),
            Ok(before) => if text::trimmed(line).len() == 0 {
                forms::targets_of(lines.push(line)) == forms::targets_of(lines)
            } else {
                match forms::target_of(line) {
                    Ok(target) => forms::targets_of(lines.push(line)) == Ok::<
                        Seq<ForwardTargetModel>,
                        Seq<char>,
                    >(before.push(target)),
                    Err(message) => forms::targets_of(lines.push(line)) == Err::<
                        Seq<ForwardTargetModel>,
                        Seq<char>,
                    >(message),
                }
            },
        },
{
    assert(lines.push(line).drop_last() =~= lines);
    mapping::law_trim_again(line);
}

/// Targets on the command line are read one after the other.
pub proof fn law_target_arguments(raws: Seq<Seq<char>>, raw: Seq<char>)
    ensures
        cli::target_arguments(Seq::empty()) == Ok::<Seq<ForwardTargetModel>, FaultModel>(
            Seq::empty(),
        ),
        match (cli::target_arguments(raws), cli::target_argument(raw)) {
            (Ok(before), Ok(target)) => cli::target_arguments(raws.push(raw)) == Ok::<
                Seq<ForwardTargetModel>,
                FaultModel,
            >(before.push(target)),
            (Err(fault), _) => cli::target_arguments(raws.push(raw)) == Err::<
                Seq<ForwardTargetModel>,
                FaultModel,
            >(fault),
            (Ok(_), Err(fault)) => cli::target_arguments(raws.push(raw)) == Err::<
                Seq<ForwardTargetModel>,
                FaultModel,
            >(fault),
        },
{
    assert(raws.push(raw).drop_last() =~= raws);
}

/// The senders of a form are those that the configuration reads, written out: the same lists are
/// accepted, and the texts are those of the addresses, in order.
pub proof fn law_senders_agree(items: Seq<Seq<char>>, before_place: Seq<char>, after_place: Seq<char>)
    ensures
        match (config::senders(items), forms::sender_texts(items, before_place, after_place)) {
            (Ok(list), Ok(texts)) => texts == store::address_texts(list),
            (Err(_), Err(_)) => true,
            _ => false,
        },
    decreases items.len(),
{
    if items.len() > 0 {
        let shorter = items.drop_last();
        law_senders_agree(shorter, before_place, after_place);
        let item = text::trimmed(items.last());
        if let Ok(list) = config::senders(shorter) {
            let texts = store::address_texts(list);
            if item.len() > 0 {
                if let Some(address) = ip::ip_address(item) {
                    let written = ip_text::ip_text(address);
                    ip_text::law_ip_text_reads_back(address);
                    if list.contains(address) {
                        let i = choose|i: int| 0 <= i < list.len() && list[i] == address;
                        assert(texts[i] == written);
                    }
                    if texts.contains(written) {
                        let i = choose|i: int| 0 <= i < texts.len() && texts[i] == written;
                        ip_text::law_ip_text_reads_back(list[i]);
                        assert(list[i] == address);
                    }
                    assert(store::address_texts(list.push(address)) =~= texts.push(written));
                }
            }
        }
    } else {
        assert(store::address_texts(Seq::empty()) =~= Seq::empty());
    }
}

/// A number that is left out is the default; one that is entered is what it writes, and the report
/// of one that is none names the row and the field.
pub proof fn law_entry_number(raw: Seq<char>, default: FloatBits, field: Seq<char>, row: nat)
    ensures
        text::trimmed(raw).len() == 0 ==> forms::entry_number(raw, default, field, row) == Ok::<
            FloatBits,
            Seq<char>,
        >(default),
        text::trimmed(raw).len() > 0 ==> match float::float_reading(text::trimmed(raw)) {
            Some(bits) => forms::entry_number(raw, default, field, row) == Ok::<
                FloatBits,
                Seq<char>,
            >(float::number(bits)),
            None => forms::entry_number(raw, default, field, row) matches Err(message)
                && text::contains_text(message, field) && text::contains_text(
                message,
                text::decimal_text(row),
            ),
        },
{
    if text::trimmed(raw).len() > 0 && float::float_reading(text::trimmed(raw)) is None {
        let start = "Mapping "@;
        let place = text::decimal_text(row);
        let end = " must be a valid number"@;
        let message = start + place + ": "@ + field + end;
        text_laws::law_holds_its_middle(start + place + ": "@, field, end);
        text_laws::law_holds_its_middle(start, place, ": "@ + field + end);
        assert(start + place + (": "@ + field + end) =~= message);
    }
}

/// A row without an address is passed over, one whose address is no path is refused, and any other
/// becomes the mapping of just its own entries.
pub proof fn law_row(row: RowModel, place: nat)
    ensures
        text::trimmed(row.address).len() == 0 ==> forms::row_mapping(row, place) == Ok::<
            Option<MappingModel>,
            Seq<char>,
        >(None),
        text::trimmed(row.address).len() > 0 && text::trimmed(row.address)[0] != '/'
            ==> forms::row_mapping(row, place) is Err,
        forms::row_mapping(row, place) matches Ok(Some(made)) ==> {
            let one = float::number(float::ONE);
            let zero = float::number(0);
            let small = float::number(forms::DEFAULT_DEADZONE);
            let weight = forms::entry_number(row.weight, one, "weight"@, place);
            let deadzone = forms::entry_number(row.deadzone, small, "deadzone"@, place);
            let min = forms::entry_number(row.min, zero, "min"@, place);
            let max = forms::entry_number(row.max, one, "max"@, place);
            &&& made.address == text::trimmed(row.address)
            &&& made.invert == row.invert && made.curve == row.curve
            &&& weight is Ok && deadzone is Ok && min is Ok && max is Ok
            &&& weight->Ok_0.finite() ==> made.weight == weight->Ok_0
            &&& float::in_unit(deadzone->Ok_0) ==> made.deadzone == deadzone->Ok_0
            &&& min->Ok_0.finite() ==> made.min == min->Ok_0
            &&& min->Ok_0.finite() && min->Ok_0.below(max->Ok_0) ==> made.max
                == mapping::UpperBound::Value(max->Ok_0)
        },
        text::trimmed(row.address).len() > 0 && text::trimmed(row.address)[0] == '/' ==> (
        forms::row_mapping(row, place) is Err <==> forms::entry_number(
            row.weight,
            float::number(float::ONE),
            "weight"@,
            place,
        ) is Err || forms::entry_number(
            row.deadzone,
            float::number(forms::DEFAULT_DEADZONE),
            "deadzone"@,
            place,
        ) is Err || forms::entry_number(row.min, float::number(0), "min"@, place) is Err
            || forms::entry_number(row.max, float::number(float::ONE), "max"@, place) is Err),
        forms::row_mapping(row, place) == Ok::<Option<MappingModel>, Seq<char>>(None)
            ==> text::trimmed(row.address).len() == 0,
{
    mapping::law_trim_again(row.address);
}

/// Rows are read one after the other, each under its number from one.
pub proof fn law_rows(rows: Seq<RowModel>, row: RowModel)
    ensures
        forms::row_mappings(Seq::empty()) == Ok::<Seq<MappingModel>, Seq<char>>(Seq::empty()),
        match (forms::row_mappings(rows), forms::row_mapping(row, rows.len() + 1)) {
            (Err(message), _) => forms::row_mappings(rows.push(row)) == Err::<
                Seq<MappingModel>,
                Seq<char>,
            >(message),
            (Ok(_), Err(message)) => forms::row_mappings(rows.push(row)) == Err::<
                Seq<MappingModel>,
                Seq<char>,
            >(message),
            (Ok(before), Ok(Some(made))) => forms::row_mappings(rows.push(row)) == Ok::<
                Seq<MappingModel>,
                Seq<char>,
            >(before.push(made)),
            (Ok(before), Ok(None)) => forms::row_mappings(rows.push(row)) == Ok::<
                Seq<MappingModel>,
                Seq<char>,
            >(before),
        },
{
    assert(rows.push(row).drop_last() =~= rows);
}

/// A credential that is entered is used, its line ends and outer blanks aside; where none is
/// entered the kept one is; where there is none the form is refused.
pub proof fn law_credential(entered: Seq<char>, kept: KeptCredential)
    ensures
        ({
            let input = text::trimmed(forms::on_one_line(entered));
            &&& input.len() > 0 ==> forms::credential_of(entered, kept) == Ok::<
                Seq<char>,
                Seq<char>,
            >(input)
            &&& input.len() == 0 ==> (forms::credential_of(entered, kept) is Ok <==> (
            kept matches KeptCredential::Loaded(Some(_))))
            &&& input.len() == 0 ==> (kept matches KeptCredential::Loaded(Some(key))
                ==> forms::credential_of(entered, kept) == Ok::<Seq<char>, Seq<char>>(key@))
        }),
{
}

/// Line ends are taken out of a key, and nothing else is.
pub proof fn law_one_line(s: Seq<char>, c: char)
    ensures
        forall|i: int|
            0 <= i < forms::on_one_line(s).len() ==> #[trigger] forms::on_one_line(s)[i] != '\n'
                && forms::on_one_line(s)[i] != '\r',
        c == '\n' || c == '\r' ==> forms::on_one_line(s.push(c)) == forms::on_one_line(s),
        c != '\n' && c != '\r' ==> forms::on_one_line(s.push(c)) == forms::on_one_line(s).push(c),
    decreases s.len(),
{
    assert(s.push(c).drop_last() =~= s);
    if s.len() > 0 {
        law_one_line(s.drop_last(), c);
    }
}

/// A port that is written from one up is read back, blanks aside; what is no port is refused.
pub proof fn law_port_entry(port: u16, raw: Seq<char>, no_number: Seq<char>, zero: Seq<char>)
    ensures
        port > 0 ==> forms::port_entry(text::decimal_text(port as nat), no_number, zero) == Ok::<
            u16,
            Seq<char>,
        >(port),
        forms::port_entry(text::decimal_text(0), no_number, zero) == Err::<u16, Seq<char>>(zero),
        forms::port_entry(raw, no_number, zero) matches Ok(found) ==> found > 0
            && text::unsigned_value(text::trimmed(raw), 65_535) == Some(found as nat),
        text::unsigned_value(text::trimmed(raw), 65_535) is None ==> forms::port_entry(
            raw,
            no_number,
            zero,
        ) == Err::<u16, Seq<char>>(no_number),
{
    text_laws::law_number_read_back(port as nat, 65_535);
    text_laws::law_number_read_back(0, 65_535);
}

/// A form is accepted exactly where name, creator and port are given and its rows, targets, senders
/// and credential can be read. Every part of the profile comes from the entry that it is named
/// after.
pub proof fn law_form(form: FormModel, selected: Option<Seq<char>>, kept: KeptCredential)
    ensures
        ({
            let rows = forms::row_mappings(form.mappings);
            let targets = forms::targets_of(text::text_lines(form.forward_targets));
            let senders = forms::allowed_senders(form.osc_allowed_senders);
            let key = forms::credential_of(form.stream_key, kept);
            let port = text::unsigned_value(text::trimmed(form.osc_port), 65_535);
            &&& forms::form_profile(form, selected, kept) is Ok <==> {
                &&& text::trimmed(form.name).len() > 0
                &&& text::trimmed(form.creator_username).len() > 0
                &&& port is Some && port->0 > 0
                &&& rows is Ok && targets is Ok && senders is Ok && key is Ok
            }
            &&& forms::form_profile(form, selected, kept) matches Ok((profile, credential)) ==> {
                &&& (selected matches Some(id) ==> profile.id == id)
                &&& selected is None ==> profile.id == "default"@
                &&& profile.name == text::trimmed(form.name)
                &&& profile.config.creator_username == text::trimmed(form.creator_username)
                &&& profile.config.website_base_url == text::trimmed(form.website_base_url)
                &&& profile.config.allow_insecure_http == form.allow_insecure_http
                &&& profile.config.osc_listen.host == text::trimmed(form.osc_host)
                &&& Some(profile.config.osc_listen.port as nat) == port
                &&& profile.config.allow_network_osc == form.allow_network_osc
                &&& profile.config.osc_allowed_senders == senders->Ok_0
                &&& profile.config.forward_targets == targets->Ok_0
                &&& profile.config.mappings == rows->Ok_0
                &&& credential == key->Ok_0
            }
        }),
{
}

/// A profile that is shown in a form and taken from it again has the same name, creator, site,
/// listener and switches, and no credential is shown.
pub proof fn law_shown_profile(profile: ProfileModel, rows: Seq<RowModel>, kept: KeptCredential)
    requires
        profile.config.osc_listen.port > 0,
        text::trimmed(profile.name) == profile.name,
        text::trimmed(profile.config.creator_username) == profile.config.creator_username,
        text::trimmed(profile.config.website_base_url) == profile.config.website_base_url,
        text::trimmed(profile.config.osc_listen.host) == profile.config.osc_listen.host,
    ensures
        forms::shown_profile(profile, rows).stream_key.len() == 0,
        forms::form_profile(forms::shown_profile(profile, rows), Some(profile.id), kept) matches Ok(
            (again, _),
        ) ==> {
            &&& again.id == profile.id && again.name == profile.name
            &&& again.config.creator_username == profile.config.creator_username
            &&& again.config.website_base_url == profile.config.website_base_url
            &&& again.config.allow_insecure_http == profile.config.allow_insecure_http
            &&& again.config.osc_listen == profile.config.osc_listen
            &&& again.config.allow_network_osc == profile.config.allow_network_osc
        },
{
    text_laws::law_number_read_back(profile.config.osc_listen.port as nat, 65_535);
    assert(forms::shown_profile(profile, rows).osc_port == text::decimal_text(
        profile.config.osc_listen.port as nat,
    ));
}

/// Targets that are shown one to a line are read back as they were.
pub proof fn law_shown_targets(targets: Seq<ForwardTargetModel>)
    requires
        forall|k: int| 0 <= k < targets.len() ==> plain_target(#[trigger] targets[k]),
    ensures
        forms::targets_of(text::text_lines(text::joined(forms::target_lines(targets), "\n"@)))
            == Ok::<Seq<ForwardTargetModel>, Seq<char>>(targets),
{
    reveal_strlit("\n");
    assert("\n"@ =~= seq!['\n']);
    let lines = forms::target_lines(targets);
    if targets.len() == 0 {
        assert(lines =~= Seq::empty());
        let whole = text::joined(lines, "\n"@);
        assert(whole =~= Seq::empty());
        assert(text::pieces(whole, seq!['\n']) =~= seq![Seq::<char>::empty()]);
        assert(text::text_lines(whole) =~= Seq::empty());
        assert(targets =~= Seq::empty());
    } else {
        assert(seq!['\n'][0] == '\n');
        assert forall|k: int| 0 <= k < lines.len() implies ip_text::free_of(
            #[trigger] lines[k],
            seq!['\n'],
        ) && lines[k].len() > 0 && lines[k].last() != '\r' by {
            lemma_target_line(targets[k]);
        }
        ip_text::law_split_joined(lines, '\n', seq!['\n']);
        let whole = text::joined(lines, "\n"@);
        assert(text::text_lines(whole) =~= lines) by {
            let parts = text::pieces(whole, seq!['\n']);
            assert(parts == lines);
            assert forall|k: int| 0 <= k < lines.len() implies text::without_return(
                #[trigger] lines[k],
            ) == lines[k] by {}
            assert(lines.last() == lines[lines.len() - 1]);
        }
        lemma_target_lines_read(targets);
    }
}

/// A target whose host has neither blanks around it nor a colon or a line end in it.
pub open spec fn plain_target(target: ForwardTargetModel) -> bool {
    &&& target.port > 0
    &&& target.host.len() > 0
    &&& text::trimmed(target.host) == target.host
    &&& forall|i: int|
        0 <= i < target.host.len() ==> #[trigger] target.host[i] != ':' && target.host[i] != '\n'
}

proof fn lemma_target_line(target: ForwardTargetModel)
    requires
        plain_target(target),
    ensures
        ({
            let line = target.host + ":"@ + text::decimal_text(target.port as nat);
            &&& ip_text::free_of(line, seq!['\n'])
            &&& line.len() > 0 && line.last() != '\r'
            &&& text::trimmed(line).len() > 0
        }),
{
    reveal_strlit(":");
    let digits = text::decimal_text(target.port as nat);
    let line = target.host + ":"@ + digits;
    text_laws::law_number_read_back(target.port as nat, 65_535);
    assert(line.last() == digits.last());
    assert(text::is_digit(digits[digits.len() - 1]));
    assert(!text::is_white(line[0])) by {
        text_laws::law_trimmed(target.host);
        assert(line[0] == target.host[0]);
    }
    text_laws::law_blanks_do_not_count(line, ' ');
    assert forall|i: int| 0 <= i < line.len() implies !seq!['\n'].contains(#[trigger] line[i]) by {
        if i < target.host.len() {
            assert(line[i] == target.host[i]);
        } else if i > target.host.len() {
            assert(line[i] == digits[i - target.host.len() - 1]);
            assert(text::is_digit(digits[i - target.host.len() - 1]));
        }
    }
}

proof fn lemma_target_lines_read(targets: Seq<ForwardTargetModel>)
    requires
        forall|k: int| 0 <= k < targets.len() ==> plain_target(#[trigger] targets[k]),
    ensures
        forms::targets_of(forms::target_lines(targets)) == Ok::<Seq<ForwardTargetModel>, Seq<char>>(
            targets,
        ),
    decreases targets.len(),
{
    let lines = forms::target_lines(targets);
    if targets.len() == 0 {
        assert(lines =~= Seq::empty());
        assert(targets =~= Seq::empty());
    } else {
        let shorter = targets.drop_last();
        assert forall|k: int| 0 <= k < shorter.len() implies plain_target(#[trigger] shorter[k]) by {
            assert(shorter[k] == targets[k]);
        }
        lemma_target_lines_read(shorter);
        let last = targets[targets.len() - 1];
        let line = last.host + ":"@ + text::decimal_text(last.port as nat);
        assert(lines.drop_last() =~= forms::target_lines(shorter));
        assert(lines =~= forms::target_lines(shorter).push(line));
        lemma_target_line(last);
        law_target_read_back(last);
        law_target_lines(forms::target_lines(shorter), line);
        assert(shorter.push(last) =~= targets);
    }
}

/// The address of a parameter is under the parameters' path, and its name is what it was.
pub proof fn law_parameter_address(key: Seq<char>)
    ensures
        key.len() > 0 && key[0] == '/' ==> forms::parameter_address(key) == key,
        key.len() == 0 || key[0] != '/' ==> runtime::param_key(forms::parameter_address(key)) == key
            && runtime::param_prefix().is_prefix_of(forms::parameter_address(key)),
{
    let prefix = runtime::param_prefix();
    let whole = prefix + key;
    assert(whole.subrange(0, prefix.len() as int) =~= prefix);
    assert(whole.skip(prefix.len() as int) =~= key);
}

/// A row that is dropped is gone and the others stay in order; the last one leaves a blank row.
pub proof fn law_row_dropped(rows: Seq<RowModel>, index: int)
    requires
        0 <= index < rows.len(),
    ensures
        rows.len() > 1 ==> forms::rows_without(rows, index) == rows.take(index) + rows.skip(
            index + 1,
        ),
        rows.len() == 1 ==> forms::rows_without(rows, index).len() == 1 && forms::rows_without(
            rows,
            index,
        )[0].address.len() == 0,
{
    if rows.len() > 1 {
        assert(rows.remove(index) =~= rows.take(index) + rows.skip(index + 1));
    }
}

/// A mapping that is added for a parameter is its only new row, at the end; the rows that are
/// removed are just those of the parameter.
pub proof fn law_parameter_rows(rows: Seq<RowModel>, row: RowModel, key: Seq<char>)
    ensures
        forms::maps_parameter(rows, key) ==> forms::rows_with(rows, key) == rows,
        !forms::maps_parameter(rows, key) ==> forms::rows_with(rows, key).len() == rows.len() + 1
            && forms::rows_with(rows, key).take(rows.len() as int) == rows && forms::rows_with(
            rows,
            key,
        ).last().address == forms::parameter_address(key),
        text::trimmed(row.address) == forms::parameter_address(key) ==> forms::rows_elsewhere(
            rows.push(row),
            forms::parameter_address(key),
        ) == forms::rows_elsewhere(rows, forms::parameter_address(key)),
        text::trimmed(row.address) != forms::parameter_address(key) ==> forms::rows_elsewhere(
            rows.push(row),
            forms::parameter_address(key),
        ) == forms::rows_elsewhere(rows, forms::parameter_address(key)).push(row),
        forms::rows_elsewhere(Seq::empty(), forms::parameter_address(key)).len() == 0,
{
    assert(rows.push(row).drop_last() =~= rows);
    assert(forms::rows_with(rows, key).take(rows.len() as int) =~= rows);
}

/// A device server is taken from the form as it is entered, blanks aside.
pub proof fn law_server_form(form: IntifaceFormModel)
    ensures
        match forms::form_server(form) {
            Ok(server) => server.host == text::trimmed(form.host) && server.host.len() > 0
                && server.secure == form.secure && server.port > 0 && text::unsigned_value(
                text::trimmed(form.port),
                65_535,
            ) == Some(server.port as nat),
            Err(_) => text::trimmed(form.host).len() == 0 || match text::unsigned_value(
                text::trimmed(form.port),
                65_535,
            ) {
                Some(port) => port == 0,
                None => true,
            },
        },
{
}

/// A route is taken from the form entry by entry.
pub proof fn law_route_form(route: RouteFormModel)
    ensures
        ({
            let rule = forms::form_rule(route);
            &&& rule.enabled == route.enabled && rule.invert == route.invert
            &&& rule.label == route.label
            &&& rule.target_device_contains == route.target_device_contains
            &&& rule.target_actuator_type == route.target_actuator_type
            &&& rule.scale == route.scale && rule.idle == route.idle
            &&& rule.min_output == route.min_output && rule.max_output == route.max_output
            &&& rule.source is Intensity <==> route.source_mode is Intensity
            &&& route.source_mode is AvatarParam ==> rule.source == SourceKindModel::AvatarParam(
                route.source_param,
            )
        }),
{
}

/// The addresses on the command line become mappings in order, those that are no paths left out.
pub proof fn law_address_arguments(addresses: Seq<Seq<char>>, address: Seq<char>)
    ensures
        cli::address_mappings(Seq::empty()).len() == 0,
        match cli::address_mapping(address) {
            Some(made) => cli::address_mappings(addresses.push(address)) == cli::address_mappings(
                addresses,
            ).push(made) && made.address == text::trimmed(address) && made.address.len() > 0
                && made.address[0] == '/' && !made.invert && made.weight == float::number(
                float::ONE,
            ),
            None => cli::address_mappings(addresses.push(address)) == cli::address_mappings(
                addresses,
            ) && (text::trimmed(address).len() == 0 || text::trimmed(address)[0] != '/'),
        },
        addresses.len() > 0 ==> cli::mapped_addresses(addresses) == addresses,
        cli::mapped_addresses(Seq::empty()).len() == 1,
{
    assert(addresses.push(address).drop_last() =~= addresses);
}

/// A profile from the command line is accepted exactly where an address is a path, its targets and
/// senders can be read and senders come with leave for the network. Every part comes from the
/// argument that it is named after.
pub proof fn law_arguments(a: ProfileArguments)
    ensures
        ({
            let mappings = cli::address_mappings(
                cli::mapped_addresses(text::texts(a.input_addresses@)),
            );
            let targets = cli::target_arguments(text::texts(a.forward_targets@));
            let senders = config::senders(text::texts(a.osc_allowed_senders@));
            &&& cli::argument_config(a) is Ok <==> mappings.len() > 0 && targets is Ok
                && senders is Ok && (a.allow_network_osc || senders->Ok_0.len() == 0)
            &&& cli::argument_config(a) matches Ok(c) ==> {
                &&& c.website_base_url == a.website_base_url@
                &&& c.creator_username == a.creator_username@
                &&& c.allow_insecure_http == a.allow_insecure_http
                &&& c.osc_listen.host == a.osc_host@ && c.osc_listen.port == a.osc_port
                &&& c.allow_network_osc == a.allow_network_osc
                &&& c.osc_allowed_senders == store::address_texts(senders->Ok_0)
                &&& c.forward_targets == targets->Ok_0
                &&& c.mappings == mappings
            }
        }),
{
    law_senders_agree(
        text::texts(a.osc_allowed_senders@),
        "Invalid --allowed-sender at position "@,
        ": '"@,
    );
}

/// A line of the list names the profile and says whether it has a credential, never which.
pub proof fn law_list_line(summary: SummaryModel)
    ensures
        summary.id.is_prefix_of(cli::summary_line(summary)),
        text::contains_text(cli::summary_line(summary), summary.name),
        text::contains_text(cli::summary_line(summary), summary.creator_username),
        text::signed_text(summary.updated_at_ms as int).is_suffix_of(cli::summary_line(summary)),
        summary.has_stream_key ==> text::contains_text(
            cli::summary_line(summary),
            "credential="@ + "set"@,
        ),
        !summary.has_stream_key ==> text::contains_text(
            cli::summary_line(summary),
            "credential="@ + "missing"@,
        ),
{
    reveal_strlit(" | credential=");
    reveal_strlit("credential=");
    let line = cli::summary_line(summary);
    let bar = " | "@;
    let word = cli::credential_text(summary.has_stream_key);
    let time = text::signed_text(summary.updated_at_ms as int);
    assert(line.subrange(0, summary.id.len() as int) =~= summary.id);
    assert(line.subrange(line.len() - time.len(), line.len() as int) =~= time);
    let end3 = " | updated="@ + time;
    let end2 = " | credential="@ + word + end3;
    let end1 = " | creator="@ + summary.creator_username + end2;
    text_laws::law_holds_its_middle(summary.id + bar, summary.name, end1);
    assert(summary.id + bar + summary.name + end1 =~= line);
    let start2 = summary.id + bar + summary.name + " | creator="@;
    text_laws::law_holds_its_middle(start2, summary.creator_username, end2);
    assert(start2 + summary.creator_username + end2 =~= line);
    let start3 = start2 + summary.creator_username + " | "@;
    reveal_strlit(" | ");
    let middle = "credential="@ + word;
    text_laws::law_holds_its_middle(start3, middle, end3);
    assert(" | credential="@ =~= " | "@ + "credential="@);
    assert(start3 + middle + end3 =~= line);
}

/// What is shown of a profile does not depend on its credential, but on whether there is one.
pub proof fn law_shown_lines(loaded: LoadedModel, key: Seq<char>)
    ensures
        loaded.stream_key is Some ==> cli::profile_lines(loaded) == cli::profile_lines(
            LoadedModel { stream_key: Some(key), ..loaded },
        ),
        cli::profile_lines(loaded).len() == 10,
        loaded.profile.id.is_suffix_of(cli::profile_lines(loaded)[0]),
        loaded.profile.name.is_suffix_of(cli::profile_lines(loaded)[1]),
        loaded.profile.config.creator_username.is_suffix_of(cli::profile_lines(loaded)[2]),
        loaded.profile.config.website_base_url.is_suffix_of(cli::profile_lines(loaded)[3]),
{
    let lines = cli::profile_lines(loaded);
    let id = loaded.profile.id;
    let name = loaded.profile.name;
    let creator = loaded.profile.config.creator_username;
    let site = loaded.profile.config.website_base_url;
    assert(lines[0].subrange(lines[0].len() - id.len(), lines[0].len() as int) =~= id);
    assert(lines[1].subrange(lines[1].len() - name.len(), lines[1].len() as int) =~= name);
    assert(lines[2].subrange(lines[2].len() - creator.len(), lines[2].len() as int) =~= creator);
    assert(lines[3].subrange(lines[3].len() - site.len(), lines[3].len() as int) =~= site);
}

/// What is stored of a normalized configuration is every part of it but the credential, the
/// addresses written out.
pub proof fn law_stored_parts(n: NormalizedModel, allow_insecure_http: bool)
    ensures
        ({
            let c = store::stored_config(n, allow_insecure_http);
            &&& c.website_base_url == n.base_url.text
            &&& c.creator_username == n.creator_username
            &&& c.allow_insecure_http == allow_insecure_http
            &&& c.osc_listen == n.osc_listen && c.allow_network_osc == n.allow_network_osc
            &&& c.osc_allowed_senders.len() == n.osc_allowed_senders.len()
            &&& forall|i: int|
                0 <= i < n.osc_allowed_senders.len() ==> ip::ip_address(
                    #[trigger] c.osc_allowed_senders[i],
                ) == Some(n.osc_allowed_senders[i])
            &&& c.relay == n.relay && c.debug == n.debug && c.discovery == n.discovery
            &&& c.forward_targets == n.forward_targets && c.mappings == n.mappings
            &&& c.output == n.output
        }),
{
    let c = store::stored_config(n, allow_insecure_http);
    assert forall|i: int| 0 <= i < n.osc_allowed_senders.len() implies ip::ip_address(
        #[trigger] c.osc_allowed_senders[i],
    ) == Some(n.osc_allowed_senders[i]) by {
        ip_text::law_ip_text_reads_back(n.osc_allowed_senders[i]);
    }
}

/// A profile can be saved exactly where its configuration is accepted, under the given name and
/// identifier.
pub proof fn law_saved_profile(
    profile: ProfileModel,
    stream_key: Seq<char>,
    id: Seq<char>,
    place: PathPlaceModel,
)
    ensures
        match (
            store::sanitized_profile(profile, stream_key, id, place),
            config::normalized_in_app(profile.config, stream_key, place),
        ) {
            (Ok(saved), Ok(n)) => saved.id == id && saved.name == text::trimmed(profile.name)
                && saved.config == store::stored_config(n, profile.config.allow_insecure_http),
            (Err(message), Err(reason)) => message == reason,
            _ => false,
        },
{
}

/// An identifier that is given is kept, blanks aside; otherwise the fresh one is taken.
pub proof fn law_identifier(id: Seq<char>, fresh: Seq<char>)
    ensures
        text::trimmed(id).len() > 0 ==> store::kept_id(id, fresh) == text::trimmed(id),
        text::trimmed(id).len() == 0 ==> store::kept_id(id, fresh) == fresh,
{
}

/// A selection is the identifier, blanks aside, and none where that is empty.
pub proof fn law_selection(id: Seq<char>)
    ensures
        store::selected_id(None) is None,
        text::trimmed(id).len() > 0 ==> store::selected_id(Some(id)) == Some(text::trimmed(id)),
        text::trimmed(id).len() == 0 ==> store::selected_id(Some(id)) is None,
        store::selected_id(store::selected_id(Some(id))) == store::selected_id(Some(id)),
{
    mapping::law_trim_again(id);
}

/// Saving a profile changes its own record and no other, and keeps every record in its place.
pub proof fn law_records_in_place(records: Seq<RecordModel>, profile: ProfileModel, now_ms: i64, i: int)
    requires
        0 <= i < records.len(),
    ensures
        ({
            let after = store::records_upserted(records, profile, now_ms);
            &&& records[i].id != profile.id ==> after[i] == records[i]
            &&& after[i].id == records[i].id && after[i].created_at_ms == records[i].created_at_ms
            &&& records.len() <= after.len() <= records.len() + 1
            &&& (exists|k: int| 0 <= k < records.len() && (#[trigger] records[k]).id == profile.id)
                <==> after.len() == records.len()
        }),
    decreases records.len(),
{
    let after = store::records_upserted(records, profile, now_ms);
    if records[0].id == profile.id {
        if i > 0 {
            assert(after[i] == records.drop_first()[i - 1]);
        }
    } else {
        let rest = records.drop_first();
        if i > 0 {
            law_records_in_place(rest, profile, now_ms, i - 1);
            assert(after[i] == store::records_upserted(rest, profile, now_ms)[i - 1]);
            assert(rest[i - 1] == records[i]);
        } else if rest.len() > 0 {
            law_records_in_place(rest, profile, now_ms, 0);
        }
        if exists|k: int| 0 <= k < records.len() && (#[trigger] records[k]).id == profile.id {
            let k = choose|k: int|
                0 <= k < records.len() && (#[trigger] records[k]).id == profile.id;
            assert(rest[k - 1].id == profile.id);
        }
        if rest.len() > 0 && exists|k: int|
            0 <= k < rest.len() && (#[trigger] rest[k]).id == profile.id {
            let k = choose|k: int| 0 <= k < rest.len() && (#[trigger] rest[k]).id == profile.id;
            assert(records[k + 1].id == profile.id);
        }
    }
}

/// Deleting a profile drops its records and keeps the others in order.
pub proof fn law_records_dropped(records: Seq<RecordModel>, record: RecordModel, id: Seq<char>)
    ensures
        store::records_without(Seq::empty(), id).len() == 0,
        record.id == id ==> store::records_without(records.push(record), id)
            == store::records_without(records, id),
        record.id != id ==> store::records_without(records.push(record), id)
            == store::records_without(records, id).push(record),
{
    assert(records.push(record).drop_last() =~= records);
}

/// Records that were updated at the same time are listed in the order in which they are kept.
pub proof fn law_listing_ties(records: Seq<RecordModel>)
    requires
        forall|i: int, j: int|
            0 <= i < j < records.len() ==> (#[trigger] records[j]).updated_at_ms <= (
            #[trigger] records[i]).updated_at_ms,
    ensures
        store::latest_first(records) == records,
    decreases records.len(),
{
    if records.len() > 0 {
        let shorter = records.drop_last();
        law_listing_ties(shorter);
        if shorter.len() > 0 {
            assert(shorter.last() == records[records.len() - 2]);
            assert(records[records.len() - 1].updated_at_ms <= records[records.len()
                - 2].updated_at_ms);
        }
        assert(shorter.push(records.last()) =~= records);
    } else {
        assert(records =~= Seq::empty());
    }
}

/// A summary repeats the record and says whether there is a credential.
pub proof fn law_summary(record: RecordModel, has_stream_key: bool)
    ensures
        ({
            let summary = store::record_summary(record, has_stream_key);
            &&& summary.id == record.id && summary.name == record.name
            &&& summary.creator_username == record.config.creator_username
            &&& summary.updated_at_ms == record.updated_at_ms
            &&& summary.has_stream_key == has_stream_key
            &&& store::record_profile(record).id == record.id
            &&& store::record_profile(record).name == record.name
            &&& store::record_profile(record).config == record.config
        }),
{
}

/// A credential is looked for under four accounts of each service, in the order of the services,
/// the profile's own account first, and nowhere else.
pub proof fn law_places(services: Seq<Seq<char>>, service: Seq<char>, id: Seq<char>, i: int)
    requires
        0 <= i < services.len(),
    ensures
        store::places_of(Seq::empty(), id).len() == 0,
        store::places_of(services.push(service), id) == store::places_of(services, id)
            + store::service_places(service, id),
        store::places_of(services, id).len() == 4 * services.len(),
        store::places_of(services, id)[4 * i] == (PlaceModel {
            service: services[i],
            account: store::account_of(id),
        }),
        store::places_of(services, id)[4 * i + 3] == (PlaceModel {
            service: services[i],
            account: text::trimmed(id),
        }),
        store::places_of(services, id)[0].account == store::account_of(id),
    decreases services.len(),
{
    assert(services.push(service).drop_last() =~= services);
    let shorter = services.drop_last();
    let own = store::service_places(services.last(), id);
    assert(own[0].account == store::account_of(id));
    assert(own[3].account == text::trimmed(id));
    if shorter.len() > 0 {
        let k = if i < shorter.len() {
            i
        } else {
            0
        };
        law_places(shorter, service, id, k);
        let before = store::places_of(shorter, id);
        if i < shorter.len() {
            assert(store::places_of(services, id)[4 * i] == before[4 * i]);
            assert(store::places_of(services, id)[4 * i + 3] == before[4 * i + 3]);
        }
        assert(store::places_of(services, id)[0] == before[0]);
    } else {
        assert(store::places_of(shorter, id).len() == 0);
    }
}

/// Two profiles whose identifiers differ, blanks aside, have different accounts.
pub proof fn law_accounts_differ(first: Seq<char>, second: Seq<char>)
    requires
        text::trimmed(first) != text::trimmed(second),
    ensures
        store::account_of(first) != store::account_of(second),
{
    reveal_strlit("profile_");
    reveal_strlit("_stream_key");
    let a = text::trimmed(first);
    let b = text::trimmed(second);
    let x = store::account_of(first);
    let y = store::account_of(second);
    if x == y {
        assert(x.len() == 8 + a.len() + 11);
        assert(y.len() == 8 + b.len() + 11);
        assert(a.len() == b.len());
        assert forall|i: int| 0 <= i < a.len() implies a[i] == b[i] by {
            assert(x[8 + i] == a[i]);
            assert(y[8 + i] == b[i]);
        }
        assert(a =~= b);
    }
}

/// The text of an error ends in what it reports.
pub proof fn law_errors_say_why(message: String, inner: config::ConfigError)
    ensures
        message@.is_suffix_of(store::store_error_text(StoreError::Sqlite(message))),
        message@.is_suffix_of(store::store_error_text(StoreError::Io(message))),
        message@.is_suffix_of(store::store_error_text(StoreError::Json(message))),
        message@.is_suffix_of(store::store_error_text(StoreError::Secret(message))),
        message@.is_suffix_of(store::store_error_text(StoreError::Time(message))),
        inner.message@.is_suffix_of(store::store_error_text(StoreError::Validation(inner))),
        service::service_error_text(ServiceError::Config(inner)) == inner.message@,
        message@.is_suffix_of(service::service_error_text(ServiceError::MissingProfile(message))),
        message@.is_suffix_of(service::service_error_text(ServiceError::MissingStreamKey(message))),
        message@.is_suffix_of(service::service_error_text(ServiceError::Runtime(message))),
        message@.is_suffix_of(service::service_error_text(ServiceError::RelayFactory(message))),
        message@.is_suffix_of(service::service_error_text(ServiceError::MutexPoisoned(message))),
{
    lemma_suffix("SQLite error: "@, message@);
    lemma_suffix("I/O error: "@, message@);
    lemma_suffix("JSON error: "@, message@);
    lemma_suffix("Secret storage error: "@, message@);
    lemma_suffix("Time error: "@, message@);
    lemma_suffix("Validation error: "@, inner.message@);
    lemma_suffix("Profile not found: "@, message@);
    lemma_suffix("Profile is missing stream key: "@, message@);
    lemma_suffix("Runtime error: "@, message@);
    lemma_suffix("Relay factory error: "@, message@);
    lemma_suffix("Mutex poisoned: "@, message@);
}

proof fn lemma_suffix(before: Seq<char>, message: Seq<char>)
    ensures
        message.is_suffix_of(before + message),
{
    let s = before + message;
    assert(s.subrange(s.len() - message.len(), s.len() as int) =~= message);
}

/// Every account of a profile names it, blanks aside, and the four are told apart by what stands
/// round the name.
pub proof fn law_accounts(id: Seq<char>)
    ensures
        ({
            let accounts = store::accounts_of(id);
            let name = text::trimmed(id);
            &&& accounts.len() == 4
            &&& accounts[0] == store::account_of(id)
            &&& accounts[3] == name
            &&& accounts[0] == "profile_"@ + name + "_stream_key"@
            &&& accounts[1] == "profile:"@ + name + ":stream_key"@
            &&& accounts[2] == "profile-"@ + name + "-stream_key"@
        }),
{
}

/// Nothing is logged by a new configuration, the discovery is on and the output has its default
/// tuning.
pub proof fn law_new_configuration(
    form: FormModel,
    selected: Option<Seq<char>>,
    kept: KeptCredential,
    a: ProfileArguments,
)
    ensures
        forms::form_profile(form, selected, kept) matches Ok((profile, _)) ==> new_defaults(
            profile.config,
        ),
        cli::argument_config(a) matches Ok(c) ==> new_defaults(c),
{
}

/// What a new configuration has that nothing was entered for.
pub open spec fn new_defaults(c: config::InAppModel) -> bool {
    &&& !c.debug.log_osc && !c.debug.log_relay
    &&& !c.debug.log_unmapped_only && !c.debug.log_configured_only
    &&& c.discovery.enabled && !c.discovery.include_arg_types
    &&& c.output == crate::smoothing::default_tuning()
    &&& c.relay.session_path == "/api/sps/session"@
    &&& c.relay.ingest_path == "/api/sps/ingest"@
}

/// A bridge starts exactly where the profile is there, has a credential and a configuration that
/// is accepted; otherwise the reason is the one that stands in the way.
pub proof fn law_start_outcome(
    profile_id: Seq<char>,
    loaded: Result<Option<LoadedProfile>, StoreError>,
    place: PathPlaceModel,
    outcome: Result<config::NormalizedConfig, ServiceError>,
)
    requires
        service::start_outcome(profile_id, loaded, place, outcome),
    ensures
        outcome is Ok <==> (loaded matches Ok(Some(found)) && (found@.stream_key matches Some(key)
            && config::normalized_in_app(found@.profile.config, key, place) is Ok)),
        outcome matches Ok(c) ==> (loaded matches Ok(Some(found)) && (
        found@.stream_key matches Some(key) && config::normalized_in_app(
            found@.profile.config,
            key,
            place,
        ) == Ok::<NormalizedModel, Seq<char>>(c@))),
        (loaded matches Ok(Some(found)) ==> (found@.stream_key is None ==> (outcome matches Err(
            ServiceError::MissingStreamKey(id),
        ) && id@ == profile_id))),
        (loaded matches Ok(None) ==> (outcome matches Err(ServiceError::MissingProfile(id)) && id@
            == profile_id)),
        (loaded matches Err(error) ==> outcome == Err::<config::NormalizedConfig, ServiceError>(
            ServiceError::Store(error),
        )),
{
}

/// A search for a key ends where a place holds one, which is copied unless it was the first, or
/// cannot be read; it goes on past a place that holds none, and there is no key only where the last
/// one holds none.
pub proof fn law_key_search(read: KeyringRead, index: usize, places: usize)
    requires
        index < places,
    ensures
        ({
            let step = store::searched(read, index, places);
            &&& (read matches KeyringRead::Found(key) ==> (step matches LookupStep::Found {
                stream_key,
                migrate,
            } && stream_key == key && migrate == (index != 0)))
            &&& step is Found <==> read is Found
            &&& step is Failed <==> read is Failed
            &&& step is Absent <==> read is Missing && index == places - 1
            &&& step is Next <==> read is Missing && index < places - 1
        }),
{
}

/// Deleting a profile stops it where it runs, and leaves any other that runs alone; what was
/// running is either still running or handed back to be stopped.
pub proof fn law_deleted_stops<H>(running: Option<(Seq<char>, H)>, profile_id: Seq<char>)
    ensures
        ({
            let (after, stopped) = service::without_deleted(running, profile_id);
            &&& (after matches Some((id, _)) ==> id != profile_id && after == running)
            &&& (running matches Some((id, handle)) ==> (id == profile_id ==> stopped == Some(handle)
                && after is None) && (id != profile_id ==> stopped is None && after == running))
            &&& running is None ==> after is None && stopped is None
        }),
{
}

} // verus!
