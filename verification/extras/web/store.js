// The database of the board in the browser.
let taskSpaceSyncPrincipal = "guest";
const taskSpaceGuestLegacyMigratedKey = "task-space.guest-legacy-migrated.v1";

function taskSpaceSafeCounter(value) {
  const number = Number(value);
  return Number.isSafeInteger(number) && number >= 0 ? number : 0;
}

function taskSpaceIsGuestPrincipal(principal) {
  const value = String(principal || "guest");
  return value === "guest" || value.startsWith("guest:");
}

function taskSpaceCanReadLegacyGuest() {
  if (!taskSpaceIsGuestPrincipal(taskSpaceSyncPrincipal)) return false;
  try {
    return globalThis.localStorage?.getItem(taskSpaceGuestLegacyMigratedKey) !== "1";
  } catch (_) {
    return true;
  }
}

function taskSpaceMarkLegacyGuestMigrated(principal) {
  if (!taskSpaceIsGuestPrincipal(principal)) return;
  try {
    globalThis.localStorage?.setItem(taskSpaceGuestLegacyMigratedKey, "1");
  } catch (_) {}
}

function taskSpaceKey(key) {
  return taskSpaceKeyFor(taskSpaceSyncPrincipal, key);
}

function taskSpaceKeyFor(principal, key) {
  return `${String(principal || "guest")}:${key}`;
}

function taskSpaceSetSyncPrincipal(principal) {
  taskSpaceSyncPrincipal = String(principal || "guest");
  return taskSpaceSyncPrincipal;
}

function taskSpaceEnsureStores(db) {
  if (!db.objectStoreNames.contains("workspace")) db.createObjectStore("workspace");
  if (!db.objectStoreNames.contains("crdt")) db.createObjectStore("crdt");
  if (!db.objectStoreNames.contains("crdt-updates")) db.createObjectStore("crdt-updates");
  if (!db.objectStoreNames.contains("sync-state")) db.createObjectStore("sync-state");
  if (!db.objectStoreNames.contains("metadata-updates")) db.createObjectStore("metadata-updates");
  // One record per principal/space keeps the snapshot, acknowledged vector,
  // generations, and outbox in one transaction. The older stores remain as
  // migration fallbacks until all clients have opened version 7.
  if (!db.objectStoreNames.contains("sync-records")) db.createObjectStore("sync-records");
  if (!db.objectStoreNames.contains("crdt-inbox")) db.createObjectStore("crdt-inbox");
}

function taskSpaceConfigureDb(db) {
  // Let a newer app version upgrade the database even when this page is
  // backgrounded. Without this handler, every open connection can keep an
  // older schema alive indefinitely and leave the upgrade request blocked.
  db.onversionchange = () => db.close();
  return db;
}

function taskSpaceBackupKeyBelongsToPrincipal(principal, key) {
  if (typeof key === "bigint" || typeof key === "number") {
    return taskSpaceIsGuestPrincipal(principal);
  }
  if (typeof key !== "string") return false;
  if (key.startsWith(`${principal}:`)) return true;
  // Guest migration retained a few pre-namespace keys so an interrupted
  // upgrade can still be recovered. Include those only in a guest backup;
  // never mix another account's namespaced records into the export.
  return taskSpaceIsGuestPrincipal(principal)
    && (key === "current" || key.startsWith("space:") || key.startsWith("space-"));
}

function taskSpaceExportIndexedDbBackup(principal) {
  const requestedPrincipal = String(principal || taskSpaceSyncPrincipal || "guest");
  return new Promise((resolve, reject) => {
    if (!globalThis.indexedDB) {
      reject(new Error("IndexedDB is unavailable"));
      return;
    }
    const request = indexedDB.open("task-space");
    request.onerror = () => reject(request.error || new Error("Could not open IndexedDB"));
    request.onsuccess = () => {
      const db = taskSpaceConfigureDb(request.result);
      const stores = Array.from(db.objectStoreNames);
      const backup = {
        format: "task-space-indexeddb-backup",
        formatVersion: 1,
        exportedAt: Date.now(),
        principal: requestedPrincipal,
        database: { name: db.name, version: db.version },
        stores: {},
        localStorage: [],
      };

      try {
        for (let index = 0; index < localStorage.length; index += 1) {
          const key = localStorage.key(index);
          if (key && key.startsWith("task-space.")) {
            backup.localStorage.push({ key, value: localStorage.getItem(key) });
          }
        }
      } catch (_) {
        // Storage access can be denied in private/restricted profiles. The
        // IndexedDB portion remains useful, so keep the export best-effort.
      }

      let storeIndex = 0;
      const fail = (error) => {
        try { db.close(); } catch (_) {}
        reject(error || new Error("Could not read IndexedDB backup"));
      };
      const readNextStore = () => {
        if (storeIndex >= stores.length) {
          try {
            const raw = JSON.stringify(backup, (_key, value) =>
              typeof value === "bigint" ? value.toString() : value,
            );
            db.close();
            resolve(raw);
          } catch (error) {
            fail(error);
          }
          return;
        }
        const storeName = stores[storeIndex++];
        const entries = [];
        backup.stores[storeName] = entries;
        let cursorRequest;
        try {
          cursorRequest = db.transaction(storeName, "readonly")
            .objectStore(storeName)
            .openCursor();
        } catch (error) {
          fail(error);
          return;
        }
        cursorRequest.onerror = () => fail(cursorRequest.error);
        cursorRequest.onsuccess = () => {
          const cursor = cursorRequest.result;
          if (!cursor) {
            readNextStore();
            return;
          }
          if (taskSpaceBackupKeyBelongsToPrincipal(requestedPrincipal, cursor.key)) {
            entries.push({ key: cursor.key, value: cursor.value });
          }
          cursor.continue();
        };
      };
      readNextStore();
    };
  });
}

function taskSpaceWorkspaceValue(value) {
  if (value && typeof value === "object" && typeof value.raw === "string") {
    return value.raw;
  }
  return value;
}

function taskSpaceWorkspaceObject(value) {
  const raw = taskSpaceWorkspaceValue(value);
  if (typeof raw !== "string") return null;
  try {
    const parsed = JSON.parse(raw);
    return parsed && Array.isArray(parsed.spaces) ? parsed : null;
  } catch (_error) {
    return null;
  }
}

function taskSpaceWorkspaceSpaceKey(space) {
  const stableId = typeof space?.stable_id === "string" ? space.stable_id.trim() : "";
  return stableId ? `stable:${stableId}` : `id:${Number(space?.id)}`;
}

function taskSpaceWorkspaceNumber(value) {
  const number = Number(value);
  return Number.isFinite(number) && number >= 0 ? number : 0;
}

function taskSpaceWorkspaceHasBoardProjection(space) {
  return (space?.board?.notes || []).length > 0
    || (space?.board?.groups || []).length > 0
    || (space?.board?.tombstones || []).length > 0;
}

function taskSpaceWorkspaceBoardVersion(space) {
  let version = 0;
  for (const note of space?.board?.notes || []) {
    version = Math.max(version, taskSpaceWorkspaceNumber(note?.updated_at), taskSpaceWorkspaceNumber(note?.deleted_at));
  }
  for (const group of space?.board?.groups || []) {
    version = Math.max(version, taskSpaceWorkspaceNumber(group?.updated_at), taskSpaceWorkspaceNumber(group?.deleted_at));
  }
  for (const tombstone of space?.board?.tombstones || []) {
    version = Math.max(version, taskSpaceWorkspaceNumber(tombstone?.deleted_at));
  }
  return version || taskSpaceWorkspaceNumber(space?.updated_at);
}

function taskSpaceWorkspaceMetadataKey(space) {
  return JSON.stringify({
    name: String(space?.name || ""),
    archived: Boolean(space?.archived),
    deleted_at: space?.deleted_at == null ? null : taskSpaceWorkspaceNumber(space.deleted_at),
  });
}

function taskSpaceWorkspacePick(existing, incoming) {
  const existingMetadataVersion = taskSpaceSafeCounter(existing?.metadata_version);
  const incomingMetadataVersion = taskSpaceSafeCounter(incoming?.metadata_version);
  let metadata = incoming;
  if (existingMetadataVersion > incomingMetadataVersion) {
    metadata = existing;
  } else if (existingMetadataVersion === incomingMetadataVersion) {
    const existingUpdatedAt = taskSpaceWorkspaceNumber(existing?.updated_at);
    const incomingUpdatedAt = taskSpaceWorkspaceNumber(incoming?.updated_at);
    const existingKey = taskSpaceWorkspaceMetadataKey(existing);
    const incomingKey = taskSpaceWorkspaceMetadataKey(incoming);
    if (existingUpdatedAt > incomingUpdatedAt
      || (existingUpdatedAt === incomingUpdatedAt && existingKey > incomingKey)) {
      metadata = existing;
    }
  }

  const existingBoardVersion = taskSpaceWorkspaceBoardVersion(existing);
  const incomingBoardVersion = taskSpaceWorkspaceBoardVersion(incoming);
  const existingHasBoard = taskSpaceWorkspaceHasBoardProjection(existing);
  const incomingHasBoard = taskSpaceWorkspaceHasBoardProjection(incoming);
  let board = incoming?.board;
  if (existingHasBoard && !incomingHasBoard) {
    board = existing?.board;
  } else if (!existingHasBoard && incomingHasBoard) {
    board = incoming?.board;
  } else if (existingBoardVersion > incomingBoardVersion) {
    board = existing?.board;
  } else if (existingBoardVersion === incomingBoardVersion) {
    const existingBoardKey = JSON.stringify(existing?.board || {});
    const incomingBoardKey = JSON.stringify(incoming?.board || {});
    if (existingBoardKey > incomingBoardKey) board = existing?.board;
  }

  const createdAt = Math.min(
    taskSpaceWorkspaceNumber(existing?.created_at) || Number.MAX_SAFE_INTEGER,
    taskSpaceWorkspaceNumber(incoming?.created_at) || Number.MAX_SAFE_INTEGER,
  );
  return {
    ...metadata,
    stable_id: String(incoming?.stable_id || existing?.stable_id || ""),
    id: Number(incoming?.id ?? existing?.id),
    created_at: createdAt === Number.MAX_SAFE_INTEGER ? 0 : createdAt,
    updated_at: Math.max(
      taskSpaceWorkspaceNumber(existing?.updated_at),
      taskSpaceWorkspaceNumber(incoming?.updated_at),
    ),
    board: board || { schema_version: 3, notes: [], groups: [], tombstones: [] },
  };
}

function taskSpaceMergeWorkspaceRaw(existingValue, incomingRaw) {
  const incoming = taskSpaceWorkspaceObject(incomingRaw);
  if (!incoming) return null;
  const existing = taskSpaceWorkspaceObject(existingValue);
  if (!existing) return incomingRaw;

  const spaces = new Map();
  for (const space of existing.spaces) {
    if (space && typeof space === "object") spaces.set(taskSpaceWorkspaceSpaceKey(space), space);
  }
  for (const space of incoming.spaces) {
    if (!space || typeof space !== "object") continue;
    const key = taskSpaceWorkspaceSpaceKey(space);
    const previous = spaces.get(key);
    spaces.set(key, previous ? taskSpaceWorkspacePick(previous, space) : space);
  }
  const mergedSpaces = Array.from(spaces.values()).sort((left, right) => {
    const created = taskSpaceWorkspaceNumber(left?.created_at) - taskSpaceWorkspaceNumber(right?.created_at);
    if (created !== 0) return created;
    return taskSpaceWorkspaceSpaceKey(left).localeCompare(taskSpaceWorkspaceSpaceKey(right));
  });

  const tombstones = new Map();
  for (const tombstone of [...(existing.tombstones || []), ...(incoming.tombstones || [])]) {
    if (!tombstone || typeof tombstone !== "object") continue;
    const key = `${String(tombstone.kind || "")}:${String(tombstone.stable_id || "")}:${Number(tombstone.id)}`;
    const previous = tombstones.get(key);
    if (!previous || taskSpaceWorkspaceNumber(tombstone.deleted_at) >= taskSpaceWorkspaceNumber(previous.deleted_at)) {
      tombstones.set(key, tombstone);
    }
  }
  const liveSpaceKeys = new Set(
    mergedSpaces
      .filter((space) => space?.deleted_at == null)
      .map(taskSpaceWorkspaceSpaceKey),
  );
  const mergedTombstones = Array.from(tombstones.values()).filter((tombstone) => {
    if (tombstone.kind !== "Space") return true;
    return !liveSpaceKeys.has(
      typeof tombstone.stable_id === "string" && tombstone.stable_id
        ? `stable:${tombstone.stable_id}`
        : `id:${Number(tombstone.id)}`,
    );
  });
  const activeSpaceId = Number(incoming.active_space_id);
  const fallbackActiveSpaceId = Number(existing.active_space_id);
  const activeExists = mergedSpaces.some((space) => Number(space?.id) === activeSpaceId);
  return JSON.stringify({
    ...existing,
    ...incoming,
    schema_version: Math.max(
      taskSpaceSafeCounter(existing.schema_version),
      taskSpaceSafeCounter(incoming.schema_version),
    ),
    spaces: mergedSpaces,
    tombstones: mergedTombstones,
    active_space_id: activeExists ? activeSpaceId : fallbackActiveSpaceId,
  });
}

function taskSpaceLoadWorkspace() {
  return new Promise((resolve, reject) => {
    if (!globalThis.indexedDB) {
      reject(new Error("IndexedDB is unavailable"));
      return;
    }
    const request = indexedDB.open("task-space", 7);
    request.onupgradeneeded = () => {
      taskSpaceEnsureStores(request.result);
      if (!request.result.objectStoreNames.contains("workspace")) {
        request.result.createObjectStore("workspace");
      }
      if (!request.result.objectStoreNames.contains("crdt")) {
        request.result.createObjectStore("crdt");
      }
      if (!request.result.objectStoreNames.contains("crdt-updates")) {
        request.result.createObjectStore("crdt-updates");
      }
      if (!request.result.objectStoreNames.contains("sync-state")) {
        request.result.createObjectStore("sync-state");
      }
      if (!request.result.objectStoreNames.contains("metadata-updates")) {
        request.result.createObjectStore("metadata-updates");
      }
    };
    request.onerror = () => reject(request.error || new Error("Could not open IndexedDB"));
    request.onsuccess = () => {
      const db = taskSpaceConfigureDb(request.result);
      const storeName = Array.from(db.objectStoreNames).includes("workspace")
        ? "workspace"
        : db.objectStoreNames[0];
      if (!storeName) {
        resolve(null);
        return;
      }
      const transaction = db.transaction(storeName, "readonly");
      const store = transaction.objectStore(storeName);
      const read = store.get(taskSpaceKey("current"));
      read.onerror = () => reject(read.error || new Error("Could not read workspace"));
      read.onsuccess = () => {
        if (read.result != null) {
          resolve(taskSpaceWorkspaceValue(read.result));
          return;
        }
        if (!taskSpaceCanReadLegacyGuest()) {
          resolve(null);
          return;
        }
        const legacy = store.get("current");
        legacy.onerror = () => reject(legacy.error || new Error("Could not read legacy workspace"));
        legacy.onsuccess = () => {
          if (legacy.result != null) {
            resolve(taskSpaceWorkspaceValue(legacy.result));
            return;
          }
          resolve(null);
        };
      };
    };
  });
}

function taskSpaceSaveWorkspace(raw, principal) {
  return new Promise((resolve, reject) => {
    if (!globalThis.indexedDB) {
      reject(new Error("IndexedDB is unavailable"));
      return;
    }
    const request = indexedDB.open("task-space", 7);
    request.onupgradeneeded = () => {
      taskSpaceEnsureStores(request.result);
      if (!request.result.objectStoreNames.contains("workspace")) {
        request.result.createObjectStore("workspace");
      }
      if (!request.result.objectStoreNames.contains("crdt")) {
        request.result.createObjectStore("crdt");
      }
      if (!request.result.objectStoreNames.contains("crdt-updates")) {
        request.result.createObjectStore("crdt-updates");
      }
      if (!request.result.objectStoreNames.contains("sync-state")) {
        request.result.createObjectStore("sync-state");
      }
      if (!request.result.objectStoreNames.contains("metadata-updates")) {
        request.result.createObjectStore("metadata-updates");
      }
    };
    request.onerror = () => reject(request.error || new Error("Could not open IndexedDB"));
    request.onsuccess = () => {
      const db = taskSpaceConfigureDb(request.result);
      const transaction = db.transaction("workspace", "readwrite");
      const store = transaction.objectStore("workspace");
      const key = taskSpaceKeyFor(principal, "current");
      const read = store.get(key);
      read.onerror = () => reject(read.error || new Error("Could not read workspace"));
      read.onsuccess = () => {
        // Allocate the sequence inside the readwrite transaction. IndexedDB
        // serializes these transactions across tabs; a per-tab counter would
        // let two tabs both write sequence 1 and let a stale physical write
        // replace a newer workspace projection.
        const previousSequence = taskSpaceSafeCounter(read.result?.writeSequence);
        const writeSequence = Math.min(Number.MAX_SAFE_INTEGER, previousSequence + 1);
        if (writeSequence >= previousSequence) {
          const mergedRaw = taskSpaceMergeWorkspaceRaw(read.result, raw) || raw;
          store.put({ raw: mergedRaw, writeSequence }, key);
        }
      };
      transaction.onerror = () => reject(transaction.error || new Error("Could not save workspace"));
      transaction.oncomplete = () => {
        taskSpaceMarkLegacyGuestMigrated(principal);
        resolve(true);
      };
    };
  });
}

function taskSpaceStartAccountRefresh(onTick) {
  return setInterval(onTick, 60_000);
}

function taskSpaceStopAccountRefresh(id) {
  clearInterval(id);
}

Object.assign(globalThis, {
  taskSpaceSetSyncPrincipal,
  taskSpaceExportIndexedDbBackup,
  taskSpaceLoadWorkspace,
  taskSpaceSaveWorkspace,
  taskSpaceStartAccountRefresh,
  taskSpaceStopAccountRefresh,
});
