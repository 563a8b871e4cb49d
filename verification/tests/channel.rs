use std::time::{Duration, Instant};
use str0m::change::{SdpAnswer, SdpOffer, SdpPendingOffer};
use str0m::channel::ChannelId;
use str0m::net::{Protocol, Receive};
use str0m::{Candidate, Event, Input, Output, Rtc, RtcConfig};
use zortilwatch::session::{Handshake, SessionMessage};

/// A peer whose datagrams are handed over in memory.
struct Peer {
    rtc: Rtc,
    addr: &'static str,
    sent: Vec<Vec<u8>>,
    chan: Option<ChannelId>,
    received: Vec<Vec<u8>>,
}

impl Peer {
    fn new(addr: &'static str, now: Instant) -> Self {
        let mut rtc = RtcConfig::new().build(now);
        rtc.add_local_candidate(Candidate::host(addr.parse().unwrap(), "udp").unwrap());
        Peer {
            rtc,
            addr,
            sent: Vec::new(),
            chan: None,
            received: Vec::new(),
        }
    }

    fn drain(&mut self) -> Instant {
        loop {
            match self.rtc.poll_output().unwrap() {
                Output::Timeout(t) => return t,
                Output::Transmit(t) => {
                    self.sent.push(t.contents.to_vec());
                }
                Output::Event(Event::ChannelOpen(id, _label)) => {
                    self.chan = Some(id);
                }
                Output::Event(Event::ChannelData(d)) => {
                    self.received.push(d.data);
                }
                Output::Event(_) => {}
            }
        }
    }

    fn recv(&mut self, from: &mut Peer, now: Instant) {
        for datagram in from.sent.drain(..) {
            let contents = datagram[..].try_into().unwrap();
            self.rtc
                .handle_input(Input::Receive(
                    now,
                    Receive {
                        proto: Protocol::Udp,
                        source: from.addr.parse().unwrap(),
                        destination: self.addr.parse().unwrap(),
                        contents,
                    },
                ))
                .unwrap();
            self.drain();
        }
    }
}

fn encode(msg: &SessionMessage) -> Vec<u8> {
    match msg {
        SessionMessage::Pake(p) => [&[0u8][..], p].concat(),
        SessionMessage::Binding(b) => [&[1u8][..], b].concat(),
    }
}

fn decode(bytes: &[u8]) -> SessionMessage {
    match bytes[0] {
        0 => SessionMessage::Pake(bytes[1..].to_vec()),
        _ => SessionMessage::Binding(bytes[1..].try_into().unwrap()),
    }
}

#[test]
fn secure_session_over_datachannel() {
    const PW: &[u8] = b"shared-one-time-pw";

    fn write_msg(rtc: &mut Rtc, cid: ChannelId, msg: &SessionMessage) {
        let bytes = encode(msg);
        if let Some(mut ch) = rtc.channel(cid) {
            let _ = ch.write(true, &bytes);
        }
    }

    str0m::crypto::from_feature_flags().install_process_default();
    let mut now = Instant::now();
    let mut a = Peer::new("127.0.0.1:40001", now);
    let mut b = Peer::new("127.0.0.1:40002", now);
    a.rtc
        .add_remote_candidate(Candidate::host(b.addr.parse().unwrap(), "udp").unwrap());
    b.rtc
        .add_remote_candidate(Candidate::host(a.addr.parse().unwrap(), "udp").unwrap());

    a.drain();
    b.drain();
    let mut api = a.rtc.sdp_api();
    let _staged: ChannelId = api.add_channel("session".to_string());
    let (offer, pending): (SdpOffer, SdpPendingOffer) = api.apply().expect("offer");
    a.drain();
    let answer: SdpAnswer = b.rtc.sdp_api().accept_offer(offer).expect("answer");
    b.drain();
    a.rtc
        .sdp_api()
        .accept_answer(pending, answer)
        .expect("accept");
    a.drain();

    let mut a_hs: Option<Handshake> = None;
    let mut b_hs: Option<Handshake> = None;

    let deadline = Instant::now() + Duration::from_secs(15);
    loop {
        let a_ok = a_hs.as_ref().is_some_and(|h| h.is_confirmed());
        let b_ok = b_hs.as_ref().is_some_and(|h| h.is_confirmed());
        if a_ok && b_ok {
            break;
        }
        assert!(
            Instant::now() < deadline,
            "secure session over channel timed out"
        );

        let ta = a.drain();
        let tb = b.drain();

        if a_hs.is_none() {
            if let Some(cid) = a.chan {
                let (hs, msg) = Handshake::start(PW, "A".into(), "B".into()).unwrap();
                a_hs = Some(hs);
                write_msg(&mut a.rtc, cid, &msg);
            }
        }
        if b_hs.is_none() {
            if let Some(cid) = b.chan {
                let (hs, msg) = Handshake::start(PW, "B".into(), "A".into()).unwrap();
                b_hs = Some(hs);
                write_msg(&mut b.rtc, cid, &msg);
            }
        }

        let a_msgs: Vec<Vec<u8>> = a.received.drain(..).collect();
        for s in a_msgs {
            if let (Some(hs), Some(cid)) = (a_hs.as_mut(), a.chan) {
                if let Some(resp) = hs.on_message(decode(&s)) {
                    write_msg(&mut a.rtc, cid, &resp);
                }
            }
        }
        let b_msgs: Vec<Vec<u8>> = b.received.drain(..).collect();
        for s in b_msgs {
            if let (Some(hs), Some(cid)) = (b_hs.as_mut(), b.chan) {
                if let Some(resp) = hs.on_message(decode(&s)) {
                    write_msg(&mut b.rtc, cid, &resp);
                }
            }
        }

        a.recv(&mut b, now);
        b.recv(&mut a, now);
        now = ta.min(tb).max(now + Duration::from_millis(1));
        a.rtc.handle_input(Input::Timeout(now)).unwrap();
        b.rtc.handle_input(Input::Timeout(now)).unwrap();
    }

    let a_hs = a_hs.unwrap();
    let b_hs = b_hs.unwrap();
    assert!(a_hs.is_confirmed() && b_hs.is_confirmed());
    assert_eq!(a_hs.confirmed_key(), b_hs.confirmed_key());
}
