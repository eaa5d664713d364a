//! Settings of the Kafka clients, as pairs of a name and a value.

use vstd::prelude::*;

verus! {

/// A setting of a client.
#[derive(Debug, Clone)]
pub struct Setting {
    pub name: String,
    pub value: String,
}

impl View for Setting {
    type V = (Seq<char>, Seq<char>);

    open spec fn view(&self) -> (Seq<char>, Seq<char>) {
        (self.name@, self.value@)
    }
}

/// The settings, each by its view.
pub open spec fn settings_of(s: Seq<Setting>) -> Seq<(Seq<char>, Seq<char>)> {
    Seq::new(s.len(), |i: int| s[i]@)
}

/// The settings of the consumer.
pub open spec fn consumer_config(brokers: Seq<char>, group_id: Seq<char>) -> Seq<
    (Seq<char>, Seq<char>),
> {
    seq![
        ("bootstrap.servers"@, brokers),
        ("group.id"@, group_id),
        ("enable.auto.commit"@, "true"@),
        ("auto.offset.reset"@, "latest"@),
        ("reconnect.backoff.ms"@, "500"@),
        ("reconnect.backoff.max.ms"@, "10000"@),
        ("retry.backoff.ms"@, "500"@),
        ("socket.keepalive.enable"@, "true"@),
    ]
}

/// The settings of the producer.
pub open spec fn producer_config(brokers: Seq<char>) -> Seq<(Seq<char>, Seq<char>)> {
    seq![
        ("bootstrap.servers"@, brokers),
        ("message.timeout.ms"@, "5000"@),
        ("message.send.max.retries"@, "10"@),
        ("retry.backoff.ms"@, "500"@),
        ("reconnect.backoff.ms"@, "500"@),
        ("reconnect.backoff.max.ms"@, "10000"@),
        ("socket.keepalive.enable"@, "true"@),
    ]
}

/// Appends a setting.
fn set(settings: &mut Vec<Setting>, name: &str, value: &str)
    ensures
        settings_of(final(settings)@) == settings_of(old(settings)@).push((name@, value@)),
{
    settings.push(Setting { name: name.to_string(), value: value.to_string() });
    assert(settings_of(settings@) =~= settings_of(old(settings)@).push((name@, value@)));
}

/// The settings of a consumer of the group `group_id`.
pub fn consumer_settings(brokers: &str, group_id: &str) -> (r: Vec<Setting>)
    ensures
        settings_of(r@) == consumer_config(brokers@, group_id@),
{
    let mut settings: Vec<Setting> = Vec::new();
    set(&mut settings, "bootstrap.servers", brokers);
    set(&mut settings, "group.id", group_id);
    set(&mut settings, "enable.auto.commit", "true");
    set(&mut settings, "auto.offset.reset", "latest");
    set(&mut settings, "reconnect.backoff.ms", "500");
    set(&mut settings, "reconnect.backoff.max.ms", "10000");
    set(&mut settings, "retry.backoff.ms", "500");
    set(&mut settings, "socket.keepalive.enable", "true");
    assert(settings_of(settings@) =~= consumer_config(brokers@, group_id@));
    settings
}

/// The settings of the producer.
pub fn producer_settings(brokers: &str) -> (r: Vec<Setting>)
    ensures
        settings_of(r@) == producer_config(brokers@),
{
    let mut settings: Vec<Setting> = Vec::new();
    set(&mut settings, "bootstrap.servers", brokers);
    set(&mut settings, "message.timeout.ms", "5000");
    set(&mut settings, "message.send.max.retries", "10");
    set(&mut settings, "retry.backoff.ms", "500");
    set(&mut settings, "reconnect.backoff.ms", "500");
    set(&mut settings, "reconnect.backoff.max.ms", "10000");
    set(&mut settings, "socket.keepalive.enable", "true");
    assert(settings_of(settings@) =~= producer_config(brokers@));
    settings
}

/// How the consumer is set up: it joins its group at the given brokers, commits by itself, begins
/// with the latest message, and keeps its connection up with the given pauses.
pub proof fn law_consumer_is_set_up(brokers: Seq<char>, group_id: Seq<char>)
    ensures
        ({
            let settings = consumer_config(brokers, group_id);
            &&& settings.len() == 8
            &&& settings[0] == ("bootstrap.servers"@, brokers)
            &&& settings[1] == ("group.id"@, group_id)
            &&& settings[2] == ("enable.auto.commit"@, "true"@)
            &&& settings[3] == ("auto.offset.reset"@, "latest"@)
            &&& settings[4] == ("reconnect.backoff.ms"@, "500"@)
            &&& settings[5] == ("reconnect.backoff.max.ms"@, "10000"@)
            &&& settings[6] == ("retry.backoff.ms"@, "500"@)
            &&& settings[7] == ("socket.keepalive.enable"@, "true"@)
        }),
{
}

/// How the producer is set up: it gives a message at the given brokers so long and so many tries,
/// and keeps its connection up with the given pauses.
pub proof fn law_producer_is_set_up(brokers: Seq<char>)
    ensures
        ({
            let settings = producer_config(brokers);
            &&& settings.len() == 7
            &&& settings[0] == ("bootstrap.servers"@, brokers)
            &&& settings[1] == ("message.timeout.ms"@, "5000"@)
            &&& settings[2] == ("message.send.max.retries"@, "10"@)
            &&& settings[3] == ("retry.backoff.ms"@, "500"@)
            &&& settings[4] == ("reconnect.backoff.ms"@, "500"@)
            &&& settings[5] == ("reconnect.backoff.max.ms"@, "10000"@)
            &&& settings[6] == ("socket.keepalive.enable"@, "true"@)
        }),
{
}

/// The view of the settings leaves nothing out.
pub proof fn law_view_shows_every_setting(settings: Seq<Setting>, i: int)
    requires
        0 <= i < settings.len(),
    ensures
        settings_of(settings).len() == settings.len(),
        settings_of(settings)[i] == (settings[i].name@, settings[i].value@),
{
}

} // verus!
