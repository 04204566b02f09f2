use highway::announcements::{
    ChainspecLoaderAnnouncement, ConsensusAnnouncement, ControlAnnouncement, Deploy,
    DeployAcceptorAnnouncement, FinalitySignature, GossipedAddress, GossiperAnnouncement,
    LinearChainAnnouncement, NetworkAnnouncement, NextUpgrade, RpcServerAnnouncement, Source,
};
use highway::crypto::{PublicKey, Signature};
use highway::era::EraId;
use highway::linear_chain::Block;
use highway::Timestamp;

#[test]
fn announcements_carry_their_payloads() {
    let deploy = Deploy { hash: 99 };
    assert_eq!(99, deploy.id());

    let _control = ControlAnnouncement::FatalError {
        file: String::from("engine"),
        line: 1,
        msg: String::from("halt"),
    };
    let net: NetworkAnnouncement<u32, u64> =
        NetworkAnnouncement::MessageReceived { sender: 7, payload: 13 };
    assert!(matches!(net, NetworkAnnouncement::MessageReceived { sender: 7, payload: 13 }));
    let _gossip: NetworkAnnouncement<u32, u64> = NetworkAnnouncement::GossipOurAddress(
        GossipedAddress { address: String::from("node-1") },
    );
    let _rpc = RpcServerAnnouncement::DeployReceived { deploy };
    let accepted: DeployAcceptorAnnouncement<u32> =
        DeployAcceptorAnnouncement::AcceptedNewDeploy { deploy, source: Source::Peer(3) };
    assert!(matches!(
        accepted,
        DeployAcceptorAnnouncement::AcceptedNewDeploy { source: Source::Peer(3), .. }
    ));
    let fault: ConsensusAnnouncement<u32> = ConsensusAnnouncement::Fault {
        era_id: EraId(0),
        public_key: PublicKey::new(5),
        timestamp: Timestamp::new(100),
    };
    assert!(matches!(fault, ConsensusAnnouncement::Fault { era_id: EraId(0), .. }));
    let _gossiper: GossiperAnnouncement<u64> = GossiperAnnouncement::NewCompleteItem(4);
    let added = LinearChainAnnouncement::BlockAdded(Block::new(8, 0));
    assert!(matches!(added, LinearChainAnnouncement::BlockAdded(_)));
    let sig = LinearChainAnnouncement::NewFinalitySignature(FinalitySignature {
        block_hash: 8,
        signature: Signature { sig: 2 },
    });
    assert!(matches!(sig, LinearChainAnnouncement::NewFinalitySignature(_)));
    let _upgrade = ChainspecLoaderAnnouncement::UpgradeActivationPointRead(NextUpgrade {
        activation_point: 10,
    });
}
